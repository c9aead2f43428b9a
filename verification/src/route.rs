//! The default route, read from the text of the kernel's IPv4 routing table
//! (`/proc/net/route`): a header line, then one route per line with the
//! interface, the destination and the gateway as the first three
//! whitespace-separated fields, addresses in hexadecimal.

use vstd::prelude::*;

verus! {

/// Whether `c` is white space in the sense of `char::is_whitespace`.
pub open spec fn is_space(c: char) -> bool {
    let u = c as u32;
    ||| u == 0x20
    ||| 0x09 <= u <= 0x0d
    ||| u == 0x85
    ||| u == 0xa0
    ||| u == 0x1680
    ||| 0x2000 <= u <= 0x200a
    ||| u == 0x2028
    ||| u == 0x2029
    ||| u == 0x202f
    ||| u == 0x205f
    ||| u == 0x3000
}

fn space(c: char) -> (r: bool)
    ensures
        r == is_space(c),
{
    let u = c as u32;
    u == 0x20 || (0x09 <= u && u <= 0x0d) || u == 0x85 || u == 0xa0 || u == 0x1680 || (0x2000
        <= u && u <= 0x200a) || u == 0x2028 || u == 0x2029 || u == 0x202f || u == 0x205f || u
        == 0x3000
}

/// The length of the run of non-space characters that starts `s`.
pub open spec fn word_len(s: Seq<char>) -> nat
    decreases s.len(),
{
    if s.len() == 0 || is_space(s[0]) {
        0
    } else {
        1 + word_len(s.drop_first())
    }
}

pub proof fn lemma_word_len_bound(s: Seq<char>)
    ensures
        word_len(s) <= s.len(),
        s.len() > 0 && !is_space(s[0]) ==> word_len(s) >= 1,
    decreases s.len(),
{
    if s.len() > 0 && !is_space(s[0]) {
        lemma_word_len_bound(s.drop_first());
    }
}

/// The whitespace-separated fields of `s`, as `str::split_whitespace`
/// yields them.
pub open spec fn fields(s: Seq<char>) -> Seq<Seq<char>>
    decreases s.len(),
{
    if s.len() == 0 {
        Seq::empty()
    } else if is_space(s[0]) {
        fields(s.drop_first())
    } else {
        proof {
            lemma_word_len_bound(s);
        }
        seq![s.take(word_len(s) as int)] + fields(s.skip(word_len(s) as int))
    }
}

/// The length of the first line of `s`, without its newline.
pub open spec fn line_len(s: Seq<char>) -> nat
    decreases s.len(),
{
    if s.len() == 0 || s[0] == '\n' {
        0
    } else {
        1 + line_len(s.drop_first())
    }
}

pub proof fn lemma_line_len_bound(s: Seq<char>)
    ensures
        line_len(s) <= s.len(),
    decreases s.len(),
{
    if s.len() > 0 && s[0] != '\n' {
        lemma_line_len_bound(s.drop_first());
    }
}

/// The lines of `s`, split at each newline, a final newline ending the last
/// line. (`str::lines` also drops a carriage return before a newline; that
/// one is white space, which the fields of a line ignore.)
pub open spec fn lines(s: Seq<char>) -> Seq<Seq<char>>
    decreases s.len(),
{
    if s.len() == 0 {
        Seq::empty()
    } else {
        proof {
            lemma_line_len_bound(s);
        }
        if line_len(s) == s.len() {
            seq![s]
        } else {
            seq![s.take(line_len(s) as int)] + lines(s.skip(line_len(s) + 1int))
        }
    }
}

/// Whether `c` is a hexadecimal digit.
pub open spec fn is_hex_digit(c: char) -> bool {
    ('0' as u32 <= c as u32 <= '9' as u32) || ('a' as u32 <= c as u32 <= 'f' as u32) || ('A' as u32
        <= c as u32 <= 'F' as u32)
}

/// The value of hexadecimal digit `c`.
pub open spec fn hex_digit_value(c: char) -> nat {
    if '0' as u32 <= c as u32 <= '9' as u32 {
        (c as u32 - '0' as u32) as nat
    } else if 'a' as u32 <= c as u32 <= 'f' as u32 {
        (c as u32 - 'a' as u32 + 10) as nat
    } else {
        (c as u32 - 'A' as u32 + 10) as nat
    }
}

/// The value of the hexadecimal digits `s`.
pub open spec fn hex_value(s: Seq<char>) -> nat
    decreases s.len(),
{
    if s.len() == 0 {
        0
    } else {
        hex_value(s.drop_last()) * 16 + hex_digit_value(s.last())
    }
}

/// Whether every character of `d` is a hexadecimal digit.
pub open spec fn all_hex(d: Seq<char>) -> bool {
    forall|i: int| 0 <= i < d.len() ==> is_hex_digit(d[i])
}

/// What `u32::from_str_radix(s, 16)` yields: an optional leading `+`, then
/// at least one hexadecimal digit, with a value that fits in 32 bits.
pub open spec fn parse_hex_u32(s: Seq<char>) -> Option<u32> {
    let d = if s.len() > 0 && s[0] == '+' { s.drop_first() } else { s };
    if d.len() > 0 && all_hex(d) && hex_value(d) <= u32::MAX {
        Some(hex_value(d) as u32)
    } else {
        None
    }
}

/// The four bytes of `g`, least significant first.
pub open spec fn le_bytes(g: u32) -> Seq<u8> {
    seq![(g % 256) as u8, ((g / 256) % 256) as u8, ((g / 65536) % 256) as u8, (g / 16777216) as u8]
}

/// Whether field `f` is the default destination, `00000000`.
pub open spec fn is_default_destination(f: Seq<char>) -> bool {
    f.len() == 8 && forall|i: int| 0 <= i < 8 ==> f[i] == '0'
}

/// The interface and gateway of the first route among `ls` whose
/// destination is the default one.
pub open spec fn route_among(ls: Seq<Seq<char>>) -> Option<(Seq<char>, u32)>
    decreases ls.len(),
{
    if ls.len() == 0 {
        None
    } else {
        let f = fields(ls[0]);
        if f.len() > 2 && is_default_destination(f[1]) {
            Some(
                (
                    f[0],
                    match parse_hex_u32(f[2]) {
                        Some(g) => g,
                        None => 0u32,
                    },
                ),
            )
        } else {
            route_among(ls.drop_first())
        }
    }
}

/// The default route in routing-table text `text`: the first line after the
/// header whose destination is `00000000`, with its interface and its
/// gateway (0 where the gateway field is not a 32-bit hexadecimal number).
pub open spec fn default_route_of(text: Seq<char>) -> Option<(Seq<char>, u32)> {
    let ls = lines(text);
    if ls.len() == 0 {
        None
    } else {
        route_among(ls.drop_first())
    }
}

/// A default route.
#[derive(Debug, PartialEq, Eq)]
pub struct DefaultRoute {
    pub iface: Vec<char>,
    /// The gateway's address bytes, in the order they are written.
    pub gateway: [u8; 4],
}

proof fn lemma_word_len_exact(u: Seq<char>, k: int)
    requires
        0 <= k <= u.len(),
        forall|j: int| 0 <= j < k ==> !is_space(u[j]),
        k == u.len() || is_space(u[k]),
    ensures
        word_len(u) == k,
    decreases k,
{
    if k > 0 {
        lemma_word_len_exact(u.drop_first(), k - 1);
    }
}

proof fn lemma_line_len_exact(u: Seq<char>, k: int)
    requires
        0 <= k <= u.len(),
        forall|j: int| 0 <= j < k ==> u[j] != '\n',
        k == u.len() || u[k] == '\n',
    ensures
        line_len(u) == k,
    decreases k,
{
    if k > 0 {
        lemma_line_len_exact(u.drop_first(), k - 1);
    }
}

/// The next field of `text[from..end]`: its start and end, and how the
/// fields of the rest follow it.
fn next_field(text: &[char], from: usize, end: usize) -> (r: Option<(usize, usize)>)
    requires
        from <= end <= text@.len(),
    ensures
        match r {
            None => fields(text@.subrange(from as int, end as int)) == Seq::<Seq<char>>::empty(),
            Some((s, e)) => {
                &&& from <= s < e <= end
                &&& fields(text@.subrange(from as int, end as int)) == seq![
                    text@.subrange(s as int, e as int),
                ] + fields(text@.subrange(e as int, end as int))
            },
        },
{
    let mut i = from;
    while i < end && space(text[i])
        invariant
            from <= i <= end <= text@.len(),
            fields(text@.subrange(from as int, end as int)) == fields(
                text@.subrange(i as int, end as int),
            ),
        decreases end - i,
    {
        proof {
            let u = text@.subrange(i as int, end as int);
            assert(u.drop_first() =~= text@.subrange(i + 1, end as int));
        }
        i = i + 1;
    }
    if i == end {
        proof {
            assert(text@.subrange(i as int, end as int).len() == 0);
        }
        return None;
    }
    let s = i;
    while i < end && !space(text[i])
        invariant
            s <= i <= end <= text@.len(),
            forall|j: int| s <= j < i ==> !is_space(text@[j]),
        decreases end - i,
    {
        i = i + 1;
    }
    proof {
        let u = text@.subrange(s as int, end as int);
        lemma_word_len_exact(u, i - s);
        assert(!is_space(u[0]));
        assert(u.take(i - s) =~= text@.subrange(s as int, i as int));
        assert(u.skip(i - s) =~= text@.subrange(i as int, end as int));
    }
    Some((s, i))
}

/// The end of the line that starts at `from`.
fn line_end(text: &[char], from: usize) -> (e: usize)
    requires
        from <= text@.len(),
    ensures
        from <= e <= text@.len(),
        e == from + line_len(text@.skip(from as int)),
{
    let n = text.len();
    let mut i = from;
    while i < n && text[i] != '\n'
        invariant
            from <= i <= n == text@.len(),
            forall|j: int| from <= j < i ==> text@[j] != '\n',
        decreases n - i,
    {
        i = i + 1;
    }
    proof {
        lemma_line_len_exact(text@.skip(from as int), i - from);
    }
    i
}

proof fn lemma_lines_step(t: Seq<char>, p: int, e: int)
    requires
        0 <= p < t.len(),
        e == p + line_len(t.skip(p)),
    ensures
        lines(t.skip(p)) == if e == t.len() {
            seq![t.subrange(p, e)]
        } else {
            seq![t.subrange(p, e)] + lines(t.skip(e + 1))
        },
{
    let u = t.skip(p);
    lemma_line_len_bound(u);
    assert(u.take(e - p) =~= t.subrange(p, e));
    if e < t.len() {
        assert(u.skip(e - p + 1) =~= t.skip(e + 1));
    } else {
        assert(u =~= t.subrange(p, e));
    }
}

/// Whether `text[s..e]` is the default destination.
fn default_destination(text: &[char], s: usize, e: usize) -> (r: bool)
    requires
        s <= e <= text@.len(),
    ensures
        r == is_default_destination(text@.subrange(s as int, e as int)),
{
    if e - s != 8 {
        return false;
    }
    let mut i = s;
    while i < e
        invariant
            s <= i <= e <= text@.len(),
            e - s == 8,
            forall|j: int| s <= j < i ==> text@[j] == '0',
        decreases e - i,
    {
        if text[i] != '0' {
            assert(text@.subrange(s as int, e as int)[i - s] == text@[i as int]);
            return false;
        }
        i = i + 1;
    }
    true
}

fn hex_digit(c: char) -> (r: Option<u64>)
    ensures
        r is Some <==> is_hex_digit(c),
        r is Some ==> r->0 == hex_digit_value(c),
{
    let u = c as u32;
    if '0' as u32 <= u && u <= '9' as u32 {
        Some((u - '0' as u32) as u64)
    } else if 'a' as u32 <= u && u <= 'f' as u32 {
        Some((u - 'a' as u32 + 10) as u64)
    } else if 'A' as u32 <= u && u <= 'F' as u32 {
        Some((u - 'A' as u32 + 10) as u64)
    } else {
        None
    }
}

proof fn lemma_hex_value_grows(d: Seq<char>, i: int)
    requires
        0 <= i <= d.len(),
    ensures
        hex_value(d.take(i)) <= hex_value(d),
    decreases d.len() - i,
{
    if i < d.len() {
        lemma_hex_value_grows(d, i + 1);
        assert(d.take(i + 1).drop_last() =~= d.take(i));
    } else {
        assert(d.take(i) =~= d);
    }
}

/// `u32::from_str_radix(text[s..e], 16)`.
pub fn parse_hex(text: &[char], s: usize, e: usize) -> (r: Option<u32>)
    requires
        s <= e <= text@.len(),
    ensures
        r == parse_hex_u32(text@.subrange(s as int, e as int)),
{
    let ghost f = text@.subrange(s as int, e as int);
    assert(f.len() > 0 ==> f[0] == text@[s as int]);
    let mut i = s;
    if i < e && text[i] == '+' {
        i = i + 1;
    }
    let ghost d = text@.subrange(i as int, e as int);
    proof {
        if f.len() > 0 && f[0] == '+' {
            assert(f.drop_first() =~= d);
        } else {
            assert(f =~= d);
        }
        assert(parse_hex_u32(f) == (if d.len() > 0 && all_hex(d) && hex_value(d) <= u32::MAX {
            Some(hex_value(d) as u32)
        } else {
            None
        }));
    }
    if i == e {
        return None;
    }
    let start = i;
    let mut acc: u64 = 0;
    while i < e
        invariant
            start <= i <= e <= text@.len(),
            d == text@.subrange(start as int, e as int),
            forall|j: int| start <= j < i ==> is_hex_digit(text@[j]),
            acc == hex_value(d.take(i - start)),
            acc <= u32::MAX,
            f == text@.subrange(s as int, e as int),
            parse_hex_u32(f) == (if d.len() > 0 && all_hex(d) && hex_value(d) <= u32::MAX {
                Some(hex_value(d) as u32)
            } else {
                None
            }),
        decreases e - i,
    {
        let dv = match hex_digit(text[i]) {
            Some(v) => v,
            None => {
                assert(d[i - start] == text@[i as int]);
                assert(!is_hex_digit(d[i - start]));
                assert(!all_hex(d));
                return None;
            },
        };
        proof {
            assert(d.take(i - start + 1).drop_last() =~= d.take(i - start));
            assert(d.take(i - start + 1).last() == text@[i as int]);
        }
        let next = acc * 16 + dv;
        if next > u32::MAX as u64 {
            proof {
                lemma_hex_value_grows(d, i - start + 1);
            }
            return None;
        }
        acc = next;
        i = i + 1;
    }
    proof {
        assert(d.take(i - start) =~= d);
        assert forall|j: int| 0 <= j < d.len() implies is_hex_digit(d[j]) by {
            assert(d[j] == text@[start + j]);
        }
        assert(all_hex(d));
    }
    Some(acc as u32)
}

/// The default route in routing-table text `text`, if there is one.
pub fn default_route(text: &[char]) -> (r: Option<DefaultRoute>)
    ensures
        match r {
            None => default_route_of(text@) is None,
            Some(route) => default_route_of(text@) matches Some((iface, g)) && route.iface@ == iface
                && route.gateway@ == le_bytes(g),
        },
{
    let n = text.len();
    if n == 0 {
        return None;
    }
    let first_end = line_end(text, 0);
    proof {
        lemma_lines_step(text@, 0, first_end as int);
        assert(text@.skip(0) =~= text@);
    }
    if first_end == n {
        return None;
    }
    proof {
        let ls = lines(text@);
        assert(ls.drop_first() =~= lines(text@.skip(first_end + 1)));
    }
    let mut p = first_end + 1;
    while p < n
        invariant
            p <= n == text@.len(),
            default_route_of(text@) == route_among(lines(text@.skip(p as int))),
        decreases n - p,
    {
        let e = line_end(text, p);
        proof {
            lemma_lines_step(text@, p as int, e as int);
        }
        let ghost line = text@.subrange(p as int, e as int);
        let ghost rest = if e == n { Seq::<Seq<char>>::empty() } else { lines(text@.skip(e + 1)) };
        proof {
            let ls = lines(text@.skip(p as int));
            assert(ls[0] == line);
            assert(ls.drop_first() =~= rest);
        }
        match next_field(text, p, e) {
            Some((s0, e0)) => match next_field(text, e0, e) {
                Some((s1, e1)) => match next_field(text, e1, e) {
                    Some((s2, e2)) => {
                        proof {
                            let f = fields(line);
                            assert(f =~= seq![
                                text@.subrange(s0 as int, e0 as int),
                                text@.subrange(s1 as int, e1 as int),
                                text@.subrange(s2 as int, e2 as int),
                            ] + fields(text@.subrange(e2 as int, e as int)));
                        }
                        if default_destination(text, s1, e1) {
                            let g = match parse_hex(text, s2, e2) {
                                Some(g) => g,
                                None => 0,
                            };
                            let mut iface: Vec<char> = Vec::new();
                            let mut k = s0;
                            while k < e0
                                invariant
                                    s0 <= k <= e0 <= text@.len(),
                                    iface@ == text@.subrange(s0 as int, k as int),
                                decreases e0 - k,
                            {
                                iface.push(text[k]);
                                proof {
                                    assert(iface@ =~= text@.subrange(s0 as int, k + 1));
                                }
                                k = k + 1;
                            }
                            let gateway: [u8; 4] = [
                                (g % 256) as u8,
                                ((g / 256) % 256) as u8,
                                ((g / 65536) % 256) as u8,
                                (g / 16777216) as u8,
                            ];
                            proof {
                                assert(gateway@ =~= le_bytes(g));
                            }
                            return Some(DefaultRoute { iface, gateway });
                        }
                    },
                    None => {
                        proof {
                            assert(fields(line).len() == 2);
                        }
                    },
                },
                None => {
                    proof {
                        assert(fields(line).len() == 1);
                    }
                },
            },
            None => {
                proof {
                    assert(fields(line).len() == 0);
                }
            },
        }
        proof {
            assert(route_among(lines(text@.skip(p as int))) == route_among(rest));
        }
        if e == n {
            return None;
        }
        p = e + 1;
    }
    proof {
        assert(text@.skip(p as int).len() == 0);
    }
    None
}

proof fn lemma_word_len_props(u: Seq<char>)
    ensures
        word_len(u) <= u.len(),
        forall|j: int| 0 <= j < word_len(u) ==> !is_space(u[j]),
        word_len(u) == u.len() || is_space(u[word_len(u) as int]),
    decreases u.len(),
{
    if u.len() > 0 && !is_space(u[0]) {
        lemma_word_len_props(u.drop_first());
        assert forall|j: int| 0 <= j < word_len(u) implies !is_space(u[j]) by {
            if j > 0 {
                assert(u[j] == u.drop_first()[j - 1]);
            }
        }
    }
}

/// White space separates fields: the fields of two texts joined by a white
/// space character are the fields of the first followed by those of the
/// second.
pub proof fn lemma_space_separates_fields(a: Seq<char>, c: char, b: Seq<char>)
    requires
        is_space(c),
    ensures
        fields(a + seq![c] + b) == fields(a) + fields(b),
    decreases a.len(),
{
    let t = a + seq![c] + b;
    if a.len() == 0 {
        assert(t.drop_first() =~= b);
        assert(fields(a) =~= Seq::<Seq<char>>::empty());
        assert(fields(a) + fields(b) =~= fields(b));
    } else if is_space(a[0]) {
        assert(t.drop_first() =~= a.drop_first() + seq![c] + b);
        lemma_space_separates_fields(a.drop_first(), c, b);
    } else {
        lemma_word_len_props(a);
        let k = word_len(a) as int;
        lemma_word_len_bound(a);
        assert forall|j: int| 0 <= j < k implies !is_space(t[j]) by {
            assert(t[j] == a[j]);
        }
        if k < a.len() {
            assert(t[k] == a[k]);
        } else {
            assert(t[k] == c);
        }
        lemma_word_len_exact(t, k);
        assert(t.take(k) =~= a.take(k));
        assert(t.skip(k) =~= a.skip(k) + seq![c] + b);
        lemma_space_separates_fields(a.skip(k), c, b);
        assert(fields(t) =~= fields(a) + fields(b));
    }
}

proof fn lemma_lines_after_line(h: Seq<char>, r: Seq<char>)
    requires
        !h.contains('\n'),
    ensures
        lines(h + seq!['\n'] + r) == seq![h] + lines(r),
{
    let t = h + seq!['\n'] + r;
    assert forall|j: int| 0 <= j < h.len() implies t[j] != '\n' by {
        assert(t[j] == h[j]);
    }
    assert(t[h.len() as int] == '\n');
    lemma_line_len_exact(t, h.len() as int);
    assert(t.take(h.len() as int) =~= h);
    assert(t.skip(h.len() + 1int) =~= r);
}

/// The first line is the header and never a route: what it holds does not
/// matter.
pub proof fn lemma_header_is_not_a_route(h1: Seq<char>, h2: Seq<char>, r: Seq<char>)
    requires
        !h1.contains('\n'),
        !h2.contains('\n'),
    ensures
        default_route_of(h1 + seq!['\n'] + r) == default_route_of(h2 + seq!['\n'] + r),
{
    lemma_lines_after_line(h1, r);
    lemma_lines_after_line(h2, r);
    assert((seq![h1] + lines(r)).drop_first() =~= lines(r));
    assert((seq![h2] + lines(r)).drop_first() =~= lines(r));
}

/// After the header, the first line whose destination is the default one
/// gives the route; a line whose destination is another, or that has fewer
/// than three fields, is passed over.
pub proof fn lemma_first_default_line_wins(h: Seq<char>, l: Seq<char>, r: Seq<char>)
    requires
        !h.contains('\n'),
        !l.contains('\n'),
    ensures
        ({
            let f = fields(l);
            if f.len() > 2 && is_default_destination(f[1]) {
                default_route_of(h + seq!['\n'] + l + seq!['\n'] + r) == Some(
                    (
                        f[0],
                        match parse_hex_u32(f[2]) {
                            Some(g) => g,
                            None => 0u32,
                        },
                    ),
                )
            } else {
                default_route_of(h + seq!['\n'] + l + seq!['\n'] + r) == default_route_of(
                    h + seq!['\n'] + r,
                )
            }
        }),
{
    let rest = l + seq!['\n'] + r;
    assert(h + seq!['\n'] + l + seq!['\n'] + r =~= h + seq!['\n'] + rest);
    lemma_lines_after_line(h, rest);
    lemma_lines_after_line(l, r);
    lemma_lines_after_line(h, r);
    assert((seq![h] + lines(rest)).drop_first() =~= lines(rest));
    assert((seq![h] + lines(r)).drop_first() =~= lines(r));
    assert((seq![l] + lines(r)).drop_first() =~= lines(r));
}

/// The gateway's bytes put back together give the gateway.
pub proof fn lemma_le_bytes_recompose(g: u32)
    ensures
        le_bytes(g)[0] + le_bytes(g)[1] * 256 + le_bytes(g)[2] * 65536 + le_bytes(g)[3] * 16777216 == g,
{
}

proof fn lemma_leading_zero(d: Seq<char>)
    ensures
        hex_value(seq!['0'] + d) == hex_value(d),
        all_hex(d) ==> all_hex(seq!['0'] + d),
    decreases d.len(),
{
    let z = seq!['0'] + d;
    if d.len() > 0 {
        assert(z.drop_last() =~= seq!['0'] + d.drop_last());
        assert(z.last() == d.last());
        lemma_leading_zero(d.drop_last());
    } else {
        assert(z.drop_last() =~= Seq::<char>::empty());
        assert(z.last() == '0');
        assert(hex_digit_value('0') == 0);
        assert(hex_value(z) == hex_value(z.drop_last()) * 16 + hex_digit_value(z.last()));
    }
    if all_hex(d) {
        assert forall|i: int| 0 <= i < z.len() implies is_hex_digit(z[i]) by {
            if i > 0 {
                assert(z[i] == d[i - 1]);
            }
        }
    }
}

/// How `u32::from_str_radix(_, 16)` reads its text: an optional `+` changes
/// nothing, a `-` or nothing at all is refused, and leading zeros do not
/// change the value.
pub proof fn lemma_hex_reading(d: Seq<char>)
    requires
        d.len() > 0,
        d[0] != '+',
    ensures
        parse_hex_u32(seq!['+'] + d) == parse_hex_u32(d),
        parse_hex_u32(seq!['-'] + d) is None,
        parse_hex_u32(Seq::empty()) is None,
        parse_hex_u32(seq!['+']) is None,
        parse_hex_u32(seq!['0'] + d) == parse_hex_u32(d),
{
    assert((seq!['+'] + d).drop_first() =~= d);
    assert(!is_hex_digit((seq!['-'] + d)[0]));
    assert(seq!['+'].drop_first() =~= Seq::<char>::empty());
    lemma_leading_zero(d);
    let z = seq!['0'] + d;
    if all_hex(z) {
        assert forall|i: int| 0 <= i < d.len() implies is_hex_digit(d[i]) by {
            assert(d[i] == z[i + 1]);
        }
    }
}

} // verus!
