//! INI text assembly: UniFi booleans, ordering of strings, the grouping of
//! emitted lines under their section headers, and the rendering of the
//! groups in header order.

use vstd::prelude::*;
use crate::text::{dec, join_lines, join_lines_exec, push_dec, trim_str, trim_ws, views};

verus! {

/// A UniFi boolean, written `enabled` or `disabled`.
#[derive(Debug, Clone, Copy, PartialEq, Eq, Structural)]
pub enum UnifiBool {
    Enabled,
    Disabled,
}

/// The text of a UniFi boolean.
pub open spec fn unifi_text(b: UnifiBool) -> Seq<char> {
    match b {
        UnifiBool::Enabled => "enabled"@,
        UnifiBool::Disabled => "disabled"@,
    }
}

/// `Enabled` for `true`, `Disabled` for `false`.
pub open spec fn unifi_of(b: bool) -> UnifiBool {
    if b {
        UnifiBool::Enabled
    } else {
        UnifiBool::Disabled
    }
}

impl UnifiBool {
    /// The text of this value.
    pub fn to_string(&self) -> (s: String)
        ensures
            s@ == unifi_text(*self),
    {
        match self {
            UnifiBool::Enabled => String::from_str("enabled"),
            UnifiBool::Disabled => String::from_str("disabled"),
        }
    }
}

impl From<bool> for UnifiBool {
    fn from(b: bool) -> (r: UnifiBool) {
        if b {
            UnifiBool::Enabled
        } else {
            UnifiBool::Disabled
        }
    }
}

impl vstd::std_specs::convert::FromSpecImpl<bool> for UnifiBool {
    open spec fn obeys_from_spec() -> bool {
        true
    }

    open spec fn from_spec(v: bool) -> UnifiBool {
        unifi_of(v)
    }
}

/// Strict lexicographic order of texts by code point, the order of `str`.
pub open spec fn str_lt(a: Seq<char>, b: Seq<char>) -> bool
    decreases a.len(),
{
    if a.len() == 0 {
        b.len() > 0
    } else if b.len() == 0 {
        false
    } else if a[0] != b[0] {
        (a[0] as int) < (b[0] as int)
    } else {
        str_lt(a.drop_first(), b.drop_first())
    }
}

proof fn lemma_str_lt_step(a: Seq<char>, b: Seq<char>, i: int)
    requires
        0 <= i < a.len(),
        i < b.len(),
        a[i] == b[i],
    ensures
        str_lt(a.skip(i), b.skip(i)) == str_lt(a.skip(i + 1), b.skip(i + 1)),
{
    assert(a.skip(i).drop_first() =~= a.skip(i + 1));
    assert(b.skip(i).drop_first() =~= b.skip(i + 1));
}

/// Whether `a` comes strictly before `b`.
pub fn str_less(a: &str, b: &str) -> (r: bool)
    ensures
        r == str_lt(a@, b@),
{
    let n = a.unicode_len();
    let m = b.unicode_len();
    let mut i: usize = 0;
    assert(a@.skip(0) =~= a@);
    assert(b@.skip(0) =~= b@);
    while i < n && i < m
        invariant
            n == a@.len(),
            m == b@.len(),
            i <= n,
            i <= m,
            str_lt(a@, b@) == str_lt(a@.skip(i as int), b@.skip(i as int)),
        decreases n - i,
    {
        let x = a.get_char(i);
        let y = b.get_char(i);
        if x != y {
            return (x as u32) < (y as u32);
        }
        proof {
            lemma_str_lt_step(a@, b@, i as int);
        }
        i = i + 1;
    }
    i == n && i < m
}

/// Whether two texts are equal.
pub fn str_eq(a: &str, b: &str) -> (r: bool)
    ensures
        r == (a@ == b@),
{
    let x = String::from_str(a);
    let y = String::from_str(b);
    x == y
}

/// The order of texts, as a closure.
pub open spec fn text_order() -> spec_fn(Seq<char>, Seq<char>) -> bool {
    |a: Seq<char>, b: Seq<char>| str_lt(a, b)
}

/// `x` placed before the first element of `s` that it precedes in `lt`;
/// the step of a stable insertion sort.
pub open spec fn insert_by<T>(lt: spec_fn(T, T) -> bool, x: T, s: Seq<T>) -> Seq<T>
    decreases s.len(),
{
    if s.len() == 0 {
        seq![x]
    } else if lt(x, s[0]) {
        seq![x] + s
    } else {
        seq![s[0]] + insert_by(lt, x, s.drop_first())
    }
}

/// Stable sort of `s` by the strict order `lt`.
pub open spec fn sort_by<T>(lt: spec_fn(T, T) -> bool, s: Seq<T>) -> Seq<T>
    decreases s.len(),
{
    if s.len() == 0 {
        Seq::empty()
    } else {
        insert_by(lt, s.last(), sort_by(lt, s.drop_last()))
    }
}

/// Inserting at the first element that `x` precedes.
pub proof fn lemma_insert_by_at<T>(lt: spec_fn(T, T) -> bool, x: T, s: Seq<T>, j: int)
    requires
        0 <= j <= s.len(),
        forall|k: int| 0 <= k < j ==> !lt(x, #[trigger] s[k]),
        j == s.len() || lt(x, s[j]),
    ensures
        insert_by(lt, x, s) == s.take(j).push(x) + s.skip(j),
    decreases j,
{
    if j == 0 {
        if s.len() == 0 {
            assert(s.take(0).push(x) + s.skip(0) =~= seq![x]);
        } else {
            assert(s.take(0).push(x) + s.skip(0) =~= seq![x] + s);
        }
    } else {
        assert(!lt(x, s[0]));
        let t = s.drop_first();
        assert forall|k: int| 0 <= k < j - 1 implies !lt(x, #[trigger] t[k]) by {
            assert(t[k] == s[k + 1]);
        }
        if j - 1 < t.len() {
            assert(t[j - 1] == s[j]);
        }
        lemma_insert_by_at(lt, x, t, j - 1);
        assert(seq![s[0]] + (t.take(j - 1).push(x) + t.skip(j - 1)) =~= s.take(j).push(x) + s.skip(j));
    }
}

/// Text that is not all white space gets a `#` header line.
pub open spec fn header_block(h: Seq<char>, ls: Seq<Seq<char>>) -> Seq<Seq<char>> {
    if trim_ws(h).len() > 0 {
        seq![seq!['#'] + h] + ls
    } else {
        ls
    }
}

/// A group list: headers, each with its lines.
pub open spec fn group_views(g: Seq<(String, Vec<String>)>) -> Seq<(Seq<char>, Seq<Seq<char>>)> {
    g.map_values(|p: (String, Vec<String>)| (p.0@, views(p.1@)))
}

/// The views of emitted `(header, line)` pairs.
pub open spec fn pair_views(e: Seq<(String, String)>) -> Seq<(Seq<char>, Seq<char>)> {
    e.map_values(|p: (String, String)| (p.0@, p.1@))
}

/// `i` is the first group with header `h`.
pub open spec fn is_first_group(g: Seq<(Seq<char>, Seq<Seq<char>>)>, h: Seq<char>, i: int) -> bool {
    0 <= i < g.len() && g[i].0 == h && forall|j: int| 0 <= j < i ==> g[j].0 != h
}

/// The groups after `line` is added under `h`: appended to the first group
/// with that header, or a new group at the end.
pub open spec fn add_line_spec(g: Seq<(Seq<char>, Seq<Seq<char>>)>, h: Seq<char>, line: Seq<char>) -> Seq<
    (Seq<char>, Seq<Seq<char>>),
> {
    if exists|i: int| is_first_group(g, h, i) {
        let i = choose|i: int| is_first_group(g, h, i);
        g.update(i, (h, g[i].1.push(line)))
    } else {
        g.push((h, seq![line]))
    }
}

/// The lines under `h` (none if there is no such group).
pub open spec fn lines_under(g: Seq<(Seq<char>, Seq<Seq<char>>)>, h: Seq<char>) -> Seq<Seq<char>> {
    if exists|i: int| is_first_group(g, h, i) {
        g[choose|i: int| is_first_group(g, h, i)].1
    } else {
        Seq::empty()
    }
}

/// Emitted `(header, line)` pairs grouped by header, in order of first use.
pub open spec fn group_lines(e: Seq<(Seq<char>, Seq<char>)>) -> Seq<(Seq<char>, Seq<Seq<char>>)>
    decreases e.len(),
{
    if e.len() == 0 {
        Seq::empty()
    } else {
        add_line_spec(group_lines(e.drop_last()), e.last().0, e.last().1)
    }
}

/// The blocks of the given headers, in that order.
pub open spec fn render_blocks(g: Seq<(Seq<char>, Seq<Seq<char>>)>, hs: Seq<Seq<char>>) -> Seq<Seq<char>>
    decreases hs.len(),
{
    if hs.len() == 0 {
        Seq::empty()
    } else {
        render_blocks(g, hs.drop_last()) + header_block(hs.last(), lines_under(g, hs.last()))
    }
}

/// The headers of a group list, in order.
pub open spec fn headers_of(g: Seq<(Seq<char>, Seq<Seq<char>>)>) -> Seq<Seq<char>> {
    g.map_values(|p: (Seq<char>, Seq<Seq<char>>)| p.0)
}

/// The rendered text of emitted lines: the groups in sorted header order,
/// each under a `#header` line unless the header is blank, joined by `\n`.
pub open spec fn render_ini(e: Seq<(Seq<char>, Seq<char>)>) -> Seq<char> {
    let g = group_lines(e);
    join_lines(render_blocks(g, sort_by(text_order(), headers_of(g))))
}

proof fn lemma_first_group_unique(g: Seq<(Seq<char>, Seq<Seq<char>>)>, h: Seq<char>, i: int, k: int)
    requires
        is_first_group(g, h, i),
        is_first_group(g, h, k),
    ensures
        i == k,
{
    if i < k {
        assert(g[i].0 != h);
    } else if k < i {
        assert(g[k].0 != h);
    }
}

/// A group with header `h` means there is a first one.
proof fn lemma_first_group_exists(g: Seq<(Seq<char>, Seq<Seq<char>>)>, h: Seq<char>, j: int)
    requires
        0 <= j < g.len(),
        g[j].0 == h,
    ensures
        exists|i: int| is_first_group(g, h, i),
    decreases j,
{
    if exists|k: int| 0 <= k < j && g[k].0 == h {
        let k = choose|k: int| 0 <= k < j && g[k].0 == h;
        lemma_first_group_exists(g, h, k);
    } else {
        assert(is_first_group(g, h, j));
    }
}

/// Adding a line under `h` appends it to the lines read back under `h` and
/// leaves the lines under every other header as they were.
pub proof fn lemma_add_line_reads(g: Seq<(Seq<char>, Seq<Seq<char>>)>, h: Seq<char>, line: Seq<char>, h2: Seq<char>)
    ensures
        lines_under(add_line_spec(g, h, line), h2) == if h2 == h {
            lines_under(g, h).push(line)
        } else {
            lines_under(g, h2)
        },
{
    let g2 = add_line_spec(g, h, line);
    if exists|i: int| is_first_group(g, h, i) {
        let i = choose|i: int| is_first_group(g, h, i);
        assert(g2 == g.update(i, (h, g[i].1.push(line))));
        assert forall|j: int| #[trigger] is_first_group(g2, h2, j) <==> is_first_group(g, h2, j) by {
            if 0 <= j < g.len() {
                assert forall|k: int| 0 <= k < j implies g2[k].0 == g[k].0 by {}
            }
        }
        if exists|j: int| is_first_group(g, h2, j) {
            let j = choose|j: int| is_first_group(g, h2, j);
            assert(is_first_group(g2, h2, j));
            let j2 = choose|j: int| is_first_group(g2, h2, j);
            assert(is_first_group(g, h2, j2));
            lemma_first_group_unique(g, h2, j, j2);
            if h2 == h {
                lemma_first_group_unique(g, h, i, j);
            }
        }
    } else {
        assert(g2 == g.push((h, seq![line])));
        assert forall|j: int| 0 <= j < g.len() implies #[trigger] g[j].0 != h by {
            if g[j].0 == h {
                lemma_first_group_exists(g, h, j);
            }
        }
        if h2 == h {
            assert(is_first_group(g2, h, g.len() as int));
            let j2 = choose|j: int| is_first_group(g2, h2, j);
            lemma_first_group_unique(g2, h, g.len() as int, j2);
        } else {
            assert forall|j: int| #[trigger] is_first_group(g2, h2, j) <==> is_first_group(g, h2, j) by {
                if 0 <= j < g.len() {
                    assert forall|k: int| 0 <= k < j implies g2[k].0 == g[k].0 by {}
                }
            }
            if exists|j: int| is_first_group(g, h2, j) {
                let j = choose|j: int| is_first_group(g, h2, j);
                assert(is_first_group(g2, h2, j));
                let j2 = choose|j: int| is_first_group(g2, h2, j);
                assert(is_first_group(g, h2, j2));
                lemma_first_group_unique(g, h2, j, j2);
            }
        }
    }
}

/// The lines emitted under `h`, in order.
pub open spec fn lines_of(e: Seq<(Seq<char>, Seq<char>)>, h: Seq<char>) -> Seq<Seq<char>>
    decreases e.len(),
{
    if e.len() == 0 {
        Seq::empty()
    } else if e.last().0 == h {
        lines_of(e.drop_last(), h).push(e.last().1)
    } else {
        lines_of(e.drop_last(), h)
    }
}

/// Grouping keeps, under each header, exactly the lines emitted under it,
/// in the order they were emitted.
pub proof fn lemma_group_lines_under(e: Seq<(Seq<char>, Seq<char>)>, h: Seq<char>)
    ensures
        lines_under(group_lines(e), h) == lines_of(e, h),
    decreases e.len(),
{
    if e.len() > 0 {
        lemma_group_lines_under(e.drop_last(), h);
        lemma_add_line_reads(group_lines(e.drop_last()), e.last().0, e.last().1, h);
    }
}

/// Finds the first group with header `h`.
fn find_group(g: &Vec<(String, Vec<String>)>, h: &str) -> (r: Option<usize>)
    ensures
        match r {
            Some(i) => is_first_group(group_views(g@), h@, i as int),
            None => !exists|i: int| is_first_group(group_views(g@), h@, i),
        },
{
    let ghost gv = group_views(g@);
    let mut i: usize = 0;
    while i < g.len()
        invariant
            gv == group_views(g@),
            i <= g.len(),
            forall|j: int| 0 <= j < i ==> gv[j].0 != h@,
        decreases g.len() - i,
    {
        if str_eq(g[i].0.as_str(), h) {
            return Some(i);
        }
        i = i + 1;
    }
    assert(!exists|k: int| is_first_group(gv, h@, k)) by {
        if exists|k: int| is_first_group(gv, h@, k) {
            let k = choose|k: int| is_first_group(gv, h@, k);
            assert(gv[k].0 != h@);
        }
    }
    None
}

/// Adds `line` under the header `header`.
pub fn add_line(sections: &mut Vec<(String, Vec<String>)>, header: &str, line: String)
    ensures
        group_views(final(sections)@) == add_line_spec(group_views(old(sections)@), header@, line@),
{
    let ghost gv = group_views(sections@);
    match find_group(sections, header) {
        Some(i) => {
            let mut entry = sections.remove(i);
            entry.1.push(line);
            sections.insert(i, entry);
            proof {
                let k = choose|k: int| is_first_group(gv, header@, k);
                lemma_first_group_unique(gv, header@, i as int, k);
                assert(views(entry.1@) =~= gv[i as int].1.push(line@));
                assert(group_views(sections@) =~= gv.update(i as int, (header@, gv[i as int].1.push(line@))));
            }
        },
        None => {
            let mut lines: Vec<String> = Vec::new();
            lines.push(line);
            sections.push((String::from_str(header), lines));
            proof {
                assert(views(lines@) =~= seq![line@]);
                assert(group_views(sections@) =~= gv.push((header@, seq![line@])));
            }
        },
    }
}

/// Groups emitted `(header, line)` pairs by header.
pub fn group_emitted(e: &Vec<(String, String)>) -> (g: Vec<(String, Vec<String>)>)
    ensures
        group_views(g@) == group_lines(pair_views(e@)),
{
    let mut g: Vec<(String, Vec<String>)> = Vec::new();
    let mut i: usize = 0;
    while i < e.len()
        invariant
            i <= e.len(),
            group_views(g@) == group_lines(pair_views(e@).take(i as int)),
        decreases e.len() - i,
    {
        proof {
            let t = pair_views(e@).take(i + 1);
            assert(t.drop_last() =~= pair_views(e@).take(i as int));
        }
        add_line(&mut g, e[i].0.as_str(), e[i].1.clone());
        i = i + 1;
    }
    assert(pair_views(e@).take(e.len() as int) =~= pair_views(e@));
    g
}

/// Inserts `x` into `v` before the first element that it precedes.
fn insert_header(v: &mut Vec<String>, x: String)
    ensures
        views(final(v)@) == insert_by(text_order(), x@, views(old(v)@)),
{
    let ghost lt = text_order();
    let ghost s = views(v@);
    let mut j: usize = 0;
    while j < v.len() && !str_less(x.as_str(), v[j].as_str())
        invariant
            s == views(v@),
            j <= v.len(),
            forall|k: int| 0 <= k < j ==> !text_order()(x@, #[trigger] s[k]),
        decreases v.len() - j,
    {
        assert(s[j as int] == v@[j as int]@);
        assert(!text_order()(x@, s[j as int]));
        j = j + 1;
    }
    proof {
        lemma_insert_by_at(lt, x@, s, j as int);
    }
    v.insert(j, x);
    assert(views(v@) =~= s.take(j as int).push(x@) + s.skip(j as int));
}

/// Renders emitted lines: grouped by header, the groups in sorted header
/// order, each under `#header` unless the header is blank, joined by `\n`.
pub fn render_emitted(e: &Vec<(String, String)>) -> (s: String)
    ensures
        s@ == render_ini(pair_views(e@)),
{
    let g = group_emitted(e);
    let ghost gv = group_views(g@);
    let mut sorted: Vec<String> = Vec::new();
    let mut i: usize = 0;
    while i < g.len()
        invariant
            gv == group_views(g@),
            i <= g.len(),
            views(sorted@) == sort_by(text_order(), headers_of(gv).take(i as int)),
        decreases g.len() - i,
    {
        proof {
            let t = headers_of(gv).take(i + 1);
            assert(t.drop_last() =~= headers_of(gv).take(i as int));
        }
        insert_header(&mut sorted, g[i].0.clone());
        i = i + 1;
    }
    assert(headers_of(gv).take(g.len() as int) =~= headers_of(gv));
    let ghost hs = views(sorted@);
    let mut out: Vec<String> = Vec::new();
    let mut k: usize = 0;
    while k < sorted.len()
        invariant
            gv == group_views(g@),
            hs == views(sorted@),
            k <= sorted.len(),
            views(out@) == render_blocks(gv, hs.take(k as int)),
        decreases sorted.len() - k,
    {
        let h = sorted[k].as_str();
        let ghost before = views(out@);
        if trim_str(h).unicode_len() > 0 {
            let mut line = String::new();
            line.push('#');
            line.append(h);
            out.push(line);
            assert(views(out@) =~= before + seq![seq!['#'] + h@]);
        }
        let ghost mid = views(out@);
        let found = find_group(&g, h);
        let ghost ls = lines_under(gv, h@);
        match found {
            Some(gi) => {
                proof {
                    let c = choose|c: int| is_first_group(gv, h@, c);
                    lemma_first_group_unique(gv, h@, gi as int, c);
                }
                let lines = &g[gi].1;
                let mut m: usize = 0;
                while m < lines.len()
                    invariant
                        views(out@) == mid + views(lines@).take(m as int),
                        m <= lines.len(),
                    decreases lines.len() - m,
                {
                    let ghost prev = views(out@);
                    let c = lines[m].clone();
                    out.push(c);
                    assert(views(out@) =~= prev.push(c@));
                    assert(views(lines@).take(m + 1) =~= views(lines@).take(m as int).push(lines@[m as int]@));
                    assert(views(out@) =~= mid + views(lines@).take(m + 1));
                    m = m + 1;
                }
                assert(views(lines@).take(lines.len() as int) =~= ls);
            },
            None => {
                assert(ls =~= Seq::<Seq<char>>::empty());
            },
        }
        proof {
            let t = hs.take(k + 1);
            assert(t.drop_last() =~= hs.take(k as int));
            assert(views(out@) =~= before + header_block(h@, ls));
        }
        k = k + 1;
    }
    assert(hs.take(sorted.len() as int) =~= hs);
    join_lines_exec(&out)
}

/// A `key=value` line.
pub open spec fn kv_line(k: Seq<char>, v: Seq<char>) -> Seq<char> {
    k + seq!['='] + v
}

/// Key-value pairs as `key=value` lines under the header `h`.
pub open spec fn kv_lines(h: Seq<char>, kvs: Seq<(Seq<char>, Seq<char>)>) -> Seq<(Seq<char>, Seq<char>)> {
    kvs.map_values(|p: (Seq<char>, Seq<char>)| (h, kv_line(p.0, p.1)))
}

/// Appends the pairs as `key=value` lines under the header `h`.
pub fn push_kvs(out: &mut Vec<(String, String)>, h: &str, kvs: Vec<(String, String)>)
    ensures
        pair_views(final(out)@) == pair_views(old(out)@) + kv_lines(h@, pair_views(kvs@)),
{
    let ghost start = pair_views(out@);
    let mut i: usize = 0;
    while i < kvs.len()
        invariant
            i <= kvs.len(),
            pair_views(out@) == start + kv_lines(h@, pair_views(kvs@).take(i as int)),
        decreases kvs.len() - i,
    {
        let mut line = kvs[i].0.clone();
        line.push('=');
        line.append(kvs[i].1.as_str());
        assert(line@ =~= kv_line(kvs@[i as int].0@, kvs@[i as int].1@));
        let ghost before = pair_views(out@);
        out.push((String::from_str(h), line));
        proof {
            assert(pair_views(out@) =~= before.push((h@, kv_line(kvs@[i as int].0@, kvs@[i as int].1@))));
            assert(kv_lines(h@, pair_views(kvs@).take(i + 1)) =~= kv_lines(h@, pair_views(kvs@).take(i as int)).push(
                (h@, kv_line(kvs@[i as int].0@, kvs@[i as int].1@)),
            ));
        }
        i = i + 1;
    }
    assert(pair_views(kvs@).take(kvs.len() as int) =~= pair_views(kvs@));
}

/// Appends one line under the header `h`.
pub fn push_line(out: &mut Vec<(String, String)>, h: &str, line: &str)
    ensures
        pair_views(final(out)@) == pair_views(old(out)@).push((h@, line@)),
{
    let ghost before = pair_views(out@);
    out.push((String::from_str(h), String::from_str(line)));
    assert(pair_views(out@) =~= before.push((h@, line@)));
}

/// `prefix`, the decimal `i`, then `field`: an indexed key.
pub fn idx_key(prefix: &str, i: u64, field: &str) -> (k: String)
    ensures
        k@ == prefix@ + dec(i as nat) + field@,
{
    let mut k = String::from_str(prefix);
    push_dec(&mut k, i as u128);
    k.append(field);
    k
}

/// A key-value pair of owned texts.
pub fn kv(k: String, v: &str) -> (p: (String, String))
    ensures
        p.0@ == k@,
        p.1@ == v@,
{
    (k, String::from_str(v))
}

/// The decimal text of a signed number.
pub open spec fn int_text(i: int) -> Seq<char> {
    if i < 0 {
        seq!['-'] + dec((-i) as nat)
    } else {
        dec(i as nat)
    }
}

/// The decimal text of a signed number.
pub fn int_string(i: i64) -> (s: String)
    ensures
        s@ == int_text(i as int),
{
    let mut s = String::new();
    if i < 0 {
        s.push('-');
        let m: i128 = -(i as i128);
        push_dec(&mut s, m as u128);
    } else {
        push_dec(&mut s, i as u128);
    }
    s
}

/// `prefix`, the decimal `i`, `mid`, the decimal `j`, then `field`: a
/// doubly indexed key.
pub fn idx2_key(prefix: &str, i: u64, mid: &str, j: u64, field: &str) -> (k: String)
    ensures
        k@ == prefix@ + dec(i as nat) + mid@ + dec(j as nat) + field@,
{
    let mut k = String::from_str(prefix);
    push_dec(&mut k, i as u128);
    k.append(mid);
    push_dec(&mut k, j as u128);
    k.append(field);
    k
}

/// Appends one key-value pair.
pub fn push_kv(kvs: &mut Vec<(String, String)>, k: String, v: &str)
    ensures
        pair_views(final(kvs)@) == pair_views(old(kvs)@).push((k@, v@)),
{
    let ghost before = pair_views(kvs@);
    kvs.push((k, String::from_str(v)));
    assert(pair_views(kvs@) =~= before.push((k@, v@)));
}

/// A configuration item that renders as fully qualified `(key, value)`
/// pairs.
pub trait ToUnifiConfig {
    /// The pairs of this item.
    fn to_config(&self) -> Vec<(String, String)>;
}

/// A value as written after `=` in a configuration line.
pub trait ToUnifiValue {
    /// The text of the value.
    spec fn unifi_value(&self) -> Seq<char>;

    /// The text of the value.
    fn to_unifi_value(&self) -> (r: String)
        ensures
            r@ == self.unifi_value(),
    ;
}

impl ToUnifiValue for String {
    open spec fn unifi_value(&self) -> Seq<char> {
        self@
    }

    fn to_unifi_value(&self) -> (r: String) {
        self.clone()
    }
}

impl<'a> ToUnifiValue for &'a str {
    open spec fn unifi_value(&self) -> Seq<char> {
        (*self)@
    }

    fn to_unifi_value(&self) -> (r: String) {
        String::from_str(*self)
    }
}

impl ToUnifiValue for u8 {
    open spec fn unifi_value(&self) -> Seq<char> {
        dec(*self as nat)
    }

    fn to_unifi_value(&self) -> (r: String) {
        crate::text::dec_string(*self as u64)
    }
}

impl ToUnifiValue for u32 {
    open spec fn unifi_value(&self) -> Seq<char> {
        dec(*self as nat)
    }

    fn to_unifi_value(&self) -> (r: String) {
        crate::text::dec_string(*self as u64)
    }
}

impl ToUnifiValue for i32 {
    open spec fn unifi_value(&self) -> Seq<char> {
        int_text(*self as int)
    }

    fn to_unifi_value(&self) -> (r: String) {
        int_string(*self as i64)
    }
}

impl ToUnifiValue for UnifiBool {
    open spec fn unifi_value(&self) -> Seq<char> {
        unifi_text(*self)
    }

    fn to_unifi_value(&self) -> (r: String) {
        self.to_string()
    }
}

impl<T: ToUnifiValue> ToUnifiValue for Option<T> {
    open spec fn unifi_value(&self) -> Seq<char> {
        match self {
            Some(v) => v.unifi_value(),
            None => Seq::empty(),
        }
    }

    fn to_unifi_value(&self) -> (r: String) {
        match self {
            Some(v) => v.to_unifi_value(),
            None => String::new(),
        }
    }
}

/// `lt` is a strict order: transitive and asymmetric.
pub open spec fn strict_order<T>(lt: spec_fn(T, T) -> bool) -> bool {
    &&& forall|a: T, b: T, c: T| #[trigger] lt(a, b) && #[trigger] lt(b, c) ==> lt(a, c)
    &&& forall|a: T, b: T| #[trigger] lt(a, b) ==> !lt(b, a)
}

/// No element precedes an earlier one.
pub open spec fn sorted_by<T>(lt: spec_fn(T, T) -> bool, s: Seq<T>) -> bool {
    forall|i: int, j: int| 0 <= i < j < s.len() ==> !lt(#[trigger] s[j], #[trigger] s[i])
}

/// Where `insert_by` places its element.
pub open spec fn insert_pos<T>(lt: spec_fn(T, T) -> bool, x: T, s: Seq<T>) -> int
    decreases s.len(),
{
    if s.len() == 0 || lt(x, s[0]) {
        0
    } else {
        1 + insert_pos(lt, x, s.drop_first())
    }
}

/// Insertion puts the element at its position and keeps the others.
proof fn lemma_insert_by_insert<T>(lt: spec_fn(T, T) -> bool, x: T, s: Seq<T>)
    ensures
        0 <= insert_pos(lt, x, s) <= s.len(),
        insert_by(lt, x, s) == s.insert(insert_pos(lt, x, s), x),
    decreases s.len(),
{
    if s.len() == 0 {
        assert(insert_by(lt, x, s) =~= s.insert(0, x));
    } else if lt(x, s[0]) {
        assert(insert_by(lt, x, s) =~= s.insert(0, x));
    } else {
        let t = s.drop_first();
        lemma_insert_by_insert(lt, x, t);
        assert(insert_by(lt, x, s) =~= s.insert(insert_pos(lt, x, s), x));
    }
}

/// Inserting into a sorted sequence keeps it sorted.
proof fn lemma_insert_by_sorted<T>(lt: spec_fn(T, T) -> bool, x: T, s: Seq<T>)
    requires
        strict_order(lt),
        sorted_by(lt, s),
    ensures
        sorted_by(lt, insert_by(lt, x, s)),
    decreases s.len(),
{
    let r = insert_by(lt, x, s);
    if s.len() == 0 {
    } else if lt(x, s[0]) {
        assert(r =~= seq![x] + s);
        assert forall|i: int, j: int| 0 <= i < j < r.len() implies !lt(#[trigger] r[j], #[trigger] r[i]) by {
            if i == 0 {
                assert(r[j] == s[j - 1]);
                if lt(s[j - 1], x) {
                    assert(lt(s[j - 1], s[0]));
                    if j - 1 > 0 {
                        assert(!lt(s[j - 1], s[0]));
                    }
                }
            } else {
                assert(r[i] == s[i - 1] && r[j] == s[j - 1]);
            }
        }
    } else {
        let t = s.drop_first();
        assert(sorted_by(lt, t)) by {
            assert forall|i: int, j: int| 0 <= i < j < t.len() implies !lt(#[trigger] t[j], #[trigger] t[i]) by {
                assert(t[i] == s[i + 1] && t[j] == s[j + 1]);
            }
        }
        lemma_insert_by_sorted(lt, x, t);
        lemma_insert_by_insert(lt, x, t);
        let q = insert_by(lt, x, t);
        assert(r =~= seq![s[0]] + q);
        let p = insert_pos(lt, x, t);
        assert forall|i: int, j: int| 0 <= i < j < r.len() implies !lt(#[trigger] r[j], #[trigger] r[i]) by {
            if i == 0 {
                assert(r[j] == q[j - 1]);
                if j - 1 < p {
                    assert(q[j - 1] == t[j - 1]);
                    assert(t[j - 1] == s[j]);
                } else if j - 1 == p {
                    assert(q[j - 1] == x);
                } else {
                    assert(q[j - 1] == t[j - 2]);
                    assert(t[j - 2] == s[j - 1]);
                }
            } else {
                assert(r[i] == q[i - 1] && r[j] == q[j - 1]);
            }
        }
    }
}

/// Sorting gives a sorted permutation.
pub proof fn lemma_sort_by_sorted<T>(lt: spec_fn(T, T) -> bool, s: Seq<T>)
    requires
        strict_order(lt),
    ensures
        sorted_by(lt, sort_by(lt, s)),
        sort_by(lt, s).to_multiset() == s.to_multiset(),
    decreases s.len(),
{
    broadcast use vstd::seq_lib::group_to_multiset_ensures;
    if s.len() > 0 {
        let t = s.drop_last();
        lemma_sort_by_sorted(lt, t);
        lemma_insert_by_sorted(lt, s.last(), sort_by(lt, t));
        lemma_insert_by_insert(lt, s.last(), sort_by(lt, t));
        assert(s =~= t.push(s.last()));
    } else {
        assert(sort_by(lt, s).to_multiset() =~= s.to_multiset());
    }
}

/// The order of texts is transitive.
proof fn lemma_str_lt_transitive(a: Seq<char>, b: Seq<char>, c: Seq<char>)
    requires
        str_lt(a, b),
        str_lt(b, c),
    ensures
        str_lt(a, c),
    decreases a.len(),
{
    if a.len() > 0 && b.len() > 0 && c.len() > 0 && a[0] == b[0] && b[0] == c[0] {
        lemma_str_lt_transitive(a.drop_first(), b.drop_first(), c.drop_first());
    }
}

/// Of two texts at most one precedes the other.
proof fn lemma_str_lt_asymmetric(a: Seq<char>, b: Seq<char>)
    ensures
        !(str_lt(a, b) && str_lt(b, a)),
    decreases a.len(),
{
    if a.len() > 0 && b.len() > 0 && a[0] == b[0] {
        lemma_str_lt_asymmetric(a.drop_first(), b.drop_first());
    }
}

/// The order of texts is a strict order.
pub proof fn lemma_text_order_strict()
    ensures
        strict_order(text_order()),
{
    assert forall|a: Seq<char>, b: Seq<char>, c: Seq<char>|
        #[trigger] text_order()(a, b) && #[trigger] text_order()(b, c) implies text_order()(a, c) by {
        lemma_str_lt_transitive(a, b, c);
    }
    assert forall|a: Seq<char>, b: Seq<char>| #[trigger] text_order()(a, b) implies !text_order()(b, a) by {
        lemma_str_lt_asymmetric(a, b);
    }
}

/// A header gets a group only once.
proof fn lemma_group_headers_distinct(e: Seq<(Seq<char>, Seq<char>)>)
    ensures
        headers_of(group_lines(e)).no_duplicates(),
    decreases e.len(),
{
    if e.len() > 0 {
        lemma_group_headers_distinct(e.drop_last());
        let g = group_lines(e.drop_last());
        let h = e.last().0;
        if exists|i: int| is_first_group(g, h, i) {
            let i = choose|i: int| is_first_group(g, h, i);
            assert(headers_of(group_lines(e)) =~= headers_of(g));
        } else {
            assert(headers_of(group_lines(e)) =~= headers_of(g).push(h));
            assert forall|j: int| 0 <= j < g.len() implies #[trigger] g[j].0 != h by {
                if g[j].0 == h {
                    lemma_first_group_exists(g, h, j);
                }
            }
        }
    }
}

/// A rendered configuration shows its groups in ascending header order,
/// each header once, and every group exactly once.
pub proof fn lemma_render_order(e: Seq<(Seq<char>, Seq<char>)>)
    ensures
        sorted_by(text_order(), sort_by(text_order(), headers_of(group_lines(e)))),
        sort_by(text_order(), headers_of(group_lines(e))).to_multiset() == headers_of(group_lines(e)).to_multiset(),
        headers_of(group_lines(e)).no_duplicates(),
{
    lemma_text_order_strict();
    lemma_sort_by_sorted(text_order(), headers_of(group_lines(e)));
    lemma_group_headers_distinct(e);
}

} // verus!
