use vstd::prelude::*;
use vstd::string::StringExecFns;

verus! {

/// Collects the characters of a string slice, in order.
pub(crate) fn chars_of(s: &str) -> (v: Vec<char>)
    ensures
        v@ == s@,
{
    let mut v: Vec<char> = Vec::new();
    for c in it: s.chars()
        invariant
            v@ == it.seq().take(it.index() as int),
            it.seq() == s@,
    {
        v.push(c);
    }
    v
}

/// Builds a `String` from characters, with `Iterator::collect` of std.
///
/// Trusted: collecting `char`s into a `String` keeps exactly those characters in
/// order, as std documents for `FromIterator<&char> for String`.
#[verifier::external_body]
pub(crate) fn string_from_chars(v: &Vec<char>) -> (s: String)
    ensures
        s@ == v@,
{
    v.iter().collect()
}

/// Appends every character of `s` to `out`.
pub(crate) fn push_str(out: &mut Vec<char>, s: &str)
    ensures
        final(out)@ == old(out)@ + s@,
{
    let v = chars_of(s);
    let mut i: usize = 0;
    while i < v.len()
        invariant
            i <= v.len(),
            v@ == s@,
            out@ == old(out)@ + v@.take(i as int),
        decreases v.len() - i,
    {
        out.push(v[i]);
        i = i + 1;
        assert(out@ =~= old(out)@ + v@.take(i as int));
    }
    assert(v@.take(i as int) =~= v@);
}

/// Position of the first `c` in `s`, or the length of `s` when there is none.
pub open spec fn find_char(s: Seq<char>, c: char) -> nat
    decreases s.len(),
{
    if s.len() == 0 {
        0
    } else if s[0] == c {
        0
    } else {
        1 + find_char(s.skip(1), c)
    }
}

pub proof fn lemma_find_char_bound(s: Seq<char>, c: char)
    ensures
        find_char(s, c) <= s.len(),
        find_char(s, c) < s.len() ==> s[find_char(s, c) as int] == c,
        forall|k: int| 0 <= k < find_char(s, c) ==> s[k] != c,
    decreases s.len(),
{
    if s.len() > 0 && s[0] != c {
        lemma_find_char_bound(s.skip(1), c);
        assert forall|k: int| 0 <= k < find_char(s, c) implies s[k] != c by {
            if k > 0 {
                assert(s[k] == s.skip(1)[k - 1]);
            }
        }
    }
}

proof fn lemma_find_char_is(s: Seq<char>, c: char, i: int)
    requires
        0 <= i <= s.len(),
        forall|k: int| 0 <= k < i ==> s[k] != c,
        i == s.len() || s[i] == c,
    ensures
        find_char(s, c) == i,
    decreases i,
{
    if i > 0 {
        assert(s[0] != c);
        let t = s.skip(1);
        assert forall|k: int| 0 <= k < i - 1 implies t[k] != c by {
            assert(t[k] == s[k + 1]);
        }
        lemma_find_char_is(t, c, i - 1);
    }
}

/// First position of `c` in `v[from..to]`, or `to` when there is none.
pub(crate) fn find_in(v: &Vec<char>, c: char, from: usize, to: usize) -> (r: usize)
    requires
        from <= to <= v.len(),
    ensures
        from <= r <= to,
        r == from + find_char(v@.subrange(from as int, to as int), c),
{
    let mut i: usize = from;
    while i < to && v[i] != c
        invariant
            from <= i <= to <= v.len(),
            forall|k: int| from <= k < i ==> v@[k] != c,
        decreases to - i,
    {
        i = i + 1;
    }
    proof {
        let s = v@.subrange(from as int, to as int);
        assert forall|k: int| 0 <= k < i - from implies s[k] != c by {
            assert(s[k] == v@[from + k]);
        }
        lemma_find_char_is(s, c, i - from);
    }
    i
}

/// Whether `v[from..to]` holds exactly the characters of `k`.
pub(crate) fn range_equals(v: &Vec<char>, from: usize, to: usize, k: &Vec<char>) -> (r: bool)
    requires
        from <= to <= v.len(),
    ensures
        r == (v@.subrange(from as int, to as int) == k@),
{
    if to - from != k.len() {
        assert(v@.subrange(from as int, to as int).len() != k@.len());
        return false;
    }
    let mut i: usize = 0;
    while i < k.len()
        invariant
            to - from == k.len(),
            from <= to <= v.len(),
            i <= k.len(),
            forall|j: int| 0 <= j < i ==> v@[from + j] == k@[j],
        decreases k.len() - i,
    {
        if v[from + i] != k[i] {
            assert(v@.subrange(from as int, to as int)[i as int] != k@[i as int]);
            return false;
        }
        i = i + 1;
    }
    assert(v@.subrange(from as int, to as int) =~= k@);
    true
}

/// The `Authorization` header value for a bearer token.
pub open spec fn bearer_header(token: Seq<char>) -> Seq<char> {
    seq!['B', 'e', 'a', 'r', 'e', 'r', ' '] + token
}

/// The `Authorization` header for an optional access token: `Bearer <token>`,
/// or none without a token.
pub fn auth_header(token: &Option<String>) -> (r: Option<String>)
    ensures
        match token {
            Some(t) => r matches Some(h) && h@ == bearer_header(t@),
            None => r is None,
        },
{
    match token {
        Some(t) => {
            let mut out: Vec<char> = Vec::new();
            out.push('B');
            out.push('e');
            out.push('a');
            out.push('r');
            out.push('e');
            out.push('r');
            out.push(' ');
            push_str(&mut out, t.as_str());
            assert(out@ =~= bearer_header(t@));
            Some(string_from_chars(&out))
        },
        None => None,
    }
}

/// How `urlencod` writes one character: `%`, space, `&`, `=`, `+`, `/` and `:`
/// become percent escapes; every other character stays.
pub open spec fn encoded_char(c: char) -> Seq<char> {
    if c == '%' {
        seq!['%', '2', '5']
    } else if c == ' ' {
        seq!['%', '2', '0']
    } else if c == '&' {
        seq!['%', '2', '6']
    } else if c == '=' {
        seq!['%', '3', 'D']
    } else if c == '+' {
        seq!['%', '2', 'B']
    } else if c == '/' {
        seq!['%', '2', 'F']
    } else if c == ':' {
        seq!['%', '3', 'A']
    } else {
        seq![c]
    }
}

/// The percent-encoding `urlencod` gives a whole string.
pub open spec fn url_encoded(s: Seq<char>) -> Seq<char>
    decreases s.len(),
{
    if s.len() == 0 {
        Seq::empty()
    } else {
        encoded_char(s[0]) + url_encoded(s.skip(1))
    }
}

fn push_encoded(out: &mut Vec<char>, c: char)
    ensures
        final(out)@ == old(out)@ + encoded_char(c),
{
    if c == '%' {
        out.push('%');
        out.push('2');
        out.push('5');
    } else if c == ' ' {
        out.push('%');
        out.push('2');
        out.push('0');
    } else if c == '&' {
        out.push('%');
        out.push('2');
        out.push('6');
    } else if c == '=' {
        out.push('%');
        out.push('3');
        out.push('D');
    } else if c == '+' {
        out.push('%');
        out.push('2');
        out.push('B');
    } else if c == '/' {
        out.push('%');
        out.push('2');
        out.push('F');
    } else if c == ':' {
        out.push('%');
        out.push('3');
        out.push('A');
    } else {
        out.push(c);
    }
    assert(final(out)@ =~= old(out)@ + encoded_char(c));
}

/// Percent-encodes the characters that matter in OAuth query parameters.
pub fn urlencod(s: &str) -> (r: String)
    ensures
        r@ == url_encoded(s@),
{
    let v = chars_of(s);
    let mut out: Vec<char> = Vec::new();
    let mut i: usize = 0;
    assert(v@.skip(0) =~= v@);
    assert(out@ + url_encoded(v@) =~= url_encoded(v@));
    while i < v.len()
        invariant
            i <= v.len(),
            url_encoded(v@) == out@ + url_encoded(v@.skip(i as int)),
        decreases v.len() - i,
    {
        let ghost before = out@;
        push_encoded(&mut out, v[i]);
        proof {
            let rest = v@.skip(i as int);
            assert(rest[0] == v@[i as int]);
            assert(rest.skip(1) =~= v@.skip(i + 1));
            assert(url_encoded(rest) == encoded_char(rest[0]) + url_encoded(rest.skip(1)));
            assert(out@ + url_encoded(v@.skip(i + 1)) =~= before + url_encoded(rest));
        }
        i = i + 1;
    }
    assert(v@.skip(i as int) =~= Seq::<char>::empty());
    assert(out@ =~= url_encoded(v@));
    string_from_chars(&out)
}

/// The value of a hexadecimal digit, if `c` is one (either case).
pub open spec fn hex_value(c: char) -> Option<int> {
    if '0' <= c && c <= '9' {
        Some(c as int - 48)
    } else if 'a' <= c && c <= 'f' {
        Some(c as int - 87)
    } else if 'A' <= c && c <= 'F' {
        Some(c as int - 55)
    } else {
        None
    }
}

/// The value of a string of hexadecimal digits, if all of them are digits.
pub open spec fn hex_digits_value(s: Seq<char>) -> Option<int>
    decreases s.len(),
{
    if s.len() == 0 {
        Some(0)
    } else {
        match (hex_digits_value(s.drop_last()), hex_value(s.last())) {
            (Some(a), Some(b)) => Some(a * 16 + b),
            _ => None,
        }
    }
}

/// What `u8::from_str_radix(h, 16)` gives: an optional leading `+` (not
/// alone), then one or more hexadecimal digits whose value fits in a byte.
pub open spec fn hex_byte(h: Seq<char>) -> Option<u8> {
    let digits = if h.len() > 0 && h[0] == '+' {
        h.skip(1)
    } else {
        h
    };
    if digits.len() == 0 {
        None
    } else {
        match hex_digits_value(digits) {
            Some(v) => if v <= 255 {
                Some(v as u8)
            } else {
                None
            },
            None => None,
        }
    }
}

/// How `urldecd` reads a string: `%` takes the next (up to) two characters as
/// a hexadecimal byte written as the character with that code (dropped when
/// they are no byte), `+` becomes a space, every other character stays.
pub open spec fn url_decoded(s: Seq<char>) -> Seq<char>
    decreases s.len(),
{
    if s.len() == 0 {
        Seq::empty()
    } else if s[0] == '%' {
        let n: int = if s.len() - 1 >= 2 {
            2
        } else {
            s.len() - 1
        };
        let rest = s.skip(1 + n);
        match hex_byte(s.subrange(1, 1 + n)) {
            Some(b) => seq![b as char] + url_decoded(rest),
            None => url_decoded(rest),
        }
    } else if s[0] == '+' {
        seq![' '] + url_decoded(s.skip(1))
    } else {
        seq![s[0]] + url_decoded(s.skip(1))
    }
}

fn hex_value_of(c: char) -> (r: Option<u32>)
    ensures
        match hex_value(c) {
            Some(v) => r == Some(v as u32),
            None => r is None,
        },
{
    if '0' <= c && c <= '9' {
        Some((c as u32) - 48)
    } else if 'a' <= c && c <= 'f' {
        Some((c as u32) - 87)
    } else if 'A' <= c && c <= 'F' {
        Some((c as u32) - 55)
    } else {
        None
    }
}

/// `u8::from_str_radix(v[from..to], 16)` for at most two characters.
fn hex_byte_in(v: &Vec<char>, from: usize, to: usize) -> (r: Option<u8>)
    requires
        from <= to <= v.len(),
        to - from <= 2,
    ensures
        r == hex_byte(v@.subrange(from as int, to as int)),
{
    let ghost h = v@.subrange(from as int, to as int);
    if from == to {
        return None;
    }
    let start: usize = if v[from] == '+' {
        from + 1
    } else {
        from
    };
    let ghost digits = if h.len() > 0 && h[0] == '+' {
        h.skip(1)
    } else {
        h
    };
    assert(digits =~= v@.subrange(start as int, to as int));
    if start == to {
        return None;
    }
    let first = hex_value_of(v[start]);
    if to - start == 1 {
        assert(digits.drop_last() =~= Seq::<char>::empty());
        assert(hex_digits_value(digits.drop_last()) == Some(0int));
        match first {
            Some(a) => {
                return Some(a as u8);
            },
            None => {
                return None;
            },
        }
    }
    let second = hex_value_of(v[start + 1]);
    let ghost d0 = digits.drop_last();
    assert(d0.drop_last() =~= Seq::<char>::empty());
    assert(d0.last() == v@[start as int]);
    assert(hex_digits_value(d0.drop_last()) == Some(0int));
    match (first, second) {
        (Some(a), Some(b)) => Some((a * 16 + b) as u8),
        _ => None,
    }
}

/// The characters of `v[from..to]` decoded as `urldecd` does.
pub(crate) fn decode_range(v: &Vec<char>, from: usize, to: usize) -> (r: Vec<char>)
    requires
        from <= to <= v.len(),
    ensures
        r@ == url_decoded(v@.subrange(from as int, to as int)),
{
    let ghost s = v@.subrange(from as int, to as int);
    let mut out: Vec<char> = Vec::new();
    let mut i: usize = from;
    while i < to
        invariant
            from <= i <= to <= v.len(),
            s == v@.subrange(from as int, to as int),
            url_decoded(s) == out@ + url_decoded(v@.subrange(i as int, to as int)),
        decreases to - i,
    {
        let ghost before = out@;
        let ghost rest = v@.subrange(i as int, to as int);
        let c = v[i];
        assert(rest[0] == c);
        if c == '%' {
            let n: usize = if to - i - 1 >= 2 {
                2
            } else {
                to - i - 1
            };
            let b = hex_byte_in(v, i + 1, i + 1 + n);
            assert(rest.subrange(1, 1 + n as int) =~= v@.subrange(i + 1, i + 1 + n));
            assert(rest.skip(1 + n as int) =~= v@.subrange(i + 1 + n, to as int));
            match b {
                Some(byte) => {
                    out.push(byte as char);
                },
                None => {},
            }
            i = i + 1 + n;
            assert(out@ + url_decoded(v@.subrange(i as int, to as int)) =~= before
                + url_decoded(rest));
        } else {
            assert(rest.skip(1) =~= v@.subrange(i + 1, to as int));
            if c == '+' {
                out.push(' ');
            } else {
                out.push(c);
            }
            i = i + 1;
            assert(out@ + url_decoded(v@.subrange(i as int, to as int)) =~= before
                + url_decoded(rest));
        }
    }
    assert(v@.subrange(i as int, to as int) =~= Seq::<char>::empty());
    assert(out@ =~= url_decoded(s));
    out
}

/// Decodes `%XX` escapes and `+` the way the OAuth callback values need.
pub fn urldecd(s: &str) -> (r: String)
    ensures
        r@ == url_decoded(s@),
{
    let v = chars_of(s);
    let d = decode_range(&v, 0, v.len());
    assert(v@.subrange(0, v@.len() as int) =~= v@);
    string_from_chars(&d)
}

/// The query of a path: what lies between its first `?` and the next `?` (or
/// the end); none without a `?`.
pub open spec fn query_of(p: Seq<char>) -> Option<Seq<char>> {
    let i = find_char(p, '?');
    if i >= p.len() {
        None
    } else {
        let rest = p.skip(i as int + 1);
        Some(rest.take(find_char(rest, '?') as int))
    }
}

/// The value of `key` in a query: the pairs separated by `&` are read in
/// order; the first whose name (up to its first `=`) is `key` decides: its
/// decoded value, or none when it has no `=`.
pub open spec fn param_in(q: Seq<char>, key: Seq<char>) -> Option<Seq<char>>
    decreases q.len(),
{
    let j = find_char(q, '&');
    let pair = q.take(j as int);
    let e = find_char(pair, '=');
    if pair.take(e as int) == key {
        if e < pair.len() {
            Some(url_decoded(pair.skip(e as int + 1)))
        } else {
            None
        }
    } else if j < q.len() {
        param_in(q.skip(j as int + 1), key)
    } else {
        None
    }
}

/// The decoded value of `key` in the query of `path`.
pub open spec fn query_param(path: Seq<char>, key: Seq<char>) -> Option<Seq<char>> {
    match query_of(path) {
        Some(q) => param_in(q, key),
        None => None,
    }
}

/// Extracts a query parameter value from a URL path like `/?code=abc&scope=xyz`.
pub fn extract_query_param(path: &str, key: &str) -> (r: Option<String>)
    ensures
        match query_param(path@, key@) {
            Some(v) => r matches Some(s) && s@ == v,
            None => r is None,
        },
{
    let p = chars_of(path);
    let k = chars_of(key);
    let len = p.len();
    let mark = find_in(&p, '?', 0, len);
    proof {
        assert(p@.subrange(0, len as int) =~= p@);
    }
    if mark >= len {
        return None;
    }
    let q_start = mark + 1;
    let q_end = find_in(&p, '?', q_start, len);
    let ghost q = p@.subrange(q_start as int, q_end as int);
    proof {
        assert(p@.skip(mark + 1) =~= p@.subrange(q_start as int, len as int));
        assert(p@.subrange(q_start as int, len as int).take(q_end - q_start) =~= q);
    }
    let mut pos: usize = q_start;
    while pos <= q_end
        invariant
            q_start <= pos <= q_end <= len,
            len == p.len(),
            p@ == path@,
            k@ == key@,
            q == p@.subrange(q_start as int, q_end as int),
            query_param(path@, key@) == param_in(p@.subrange(pos as int, q_end as int), key@),
        decreases q_end - pos,
    {
        let ghost rest = p@.subrange(pos as int, q_end as int);
        let amp = find_in(&p, '&', pos, q_end);
        let eq = find_in(&p, '=', pos, amp);
        proof {
            assert(rest.take(amp - pos) =~= p@.subrange(pos as int, amp as int));
            let pair = p@.subrange(pos as int, amp as int);
            assert(pair.take(eq - pos) =~= p@.subrange(pos as int, eq as int));
        }
        if range_equals(&p, pos, eq, &k) {
            if eq < amp {
                let d = decode_range(&p, eq + 1, amp);
                proof {
                    let pair = p@.subrange(pos as int, amp as int);
                    assert(pair.skip(eq - pos + 1) =~= p@.subrange(eq + 1, amp as int));
                }
                return Some(string_from_chars(&d));
            } else {
                return None;
            }
        }
        if amp >= q_end {
            return None;
        }
        proof {
            assert(rest.skip(amp - pos + 1) =~= p@.subrange(amp + 1, q_end as int));
        }
        pos = amp + 1;
    }
    None
}

proof fn lemma_escape_decodes(x: char, y: char, v: u8, rest: Seq<char>)
    requires
        hex_value(x) is Some,
        hex_value(y) is Some,
        v as int == hex_value(x).unwrap() * 16 + hex_value(y).unwrap(),
    ensures
        url_decoded(seq!['%', x, y] + rest) == seq![v as char] + url_decoded(rest),
{
    let s = seq!['%', x, y] + rest;
    let h = s.subrange(1, 3);
    assert(h =~= seq![x, y]);
    assert(h.drop_last() =~= seq![x]);
    assert(h.drop_last().drop_last() =~= Seq::<char>::empty());
    assert(hex_digits_value(h.drop_last().drop_last()) == Some(0int));
    assert(hex_digits_value(h.drop_last()) == Some(hex_value(x).unwrap()));
    assert(hex_byte(h) == Some(v));
    assert(s.skip(3) =~= rest);
}

/// Decoding undoes encoding: `urldecd(urlencod(s)) == s` for every string.
pub proof fn lemma_decode_encode(s: Seq<char>)
    ensures
        url_decoded(url_encoded(s)) == s,
    decreases s.len(),
{
    if s.len() > 0 {
        let c = s[0];
        let rest = url_encoded(s.skip(1));
        lemma_decode_encode(s.skip(1));
        assert(url_encoded(s) == encoded_char(c) + rest);
        if c == '%' {
            lemma_escape_decodes('2', '5', 0x25u8, rest);
        } else if c == ' ' {
            lemma_escape_decodes('2', '0', 0x20u8, rest);
        } else if c == '&' {
            lemma_escape_decodes('2', '6', 0x26u8, rest);
        } else if c == '=' {
            lemma_escape_decodes('3', 'D', 0x3Du8, rest);
        } else if c == '+' {
            lemma_escape_decodes('2', 'B', 0x2Bu8, rest);
        } else if c == '/' {
            lemma_escape_decodes('2', 'F', 0x2Fu8, rest);
        } else if c == ':' {
            lemma_escape_decodes('3', 'A', 0x3Au8, rest);
        } else {
            let e = seq![c] + rest;
            assert(e.skip(1) =~= rest);
        }
        assert(seq![c] + s.skip(1) =~= s);
    }
}

/// The characters `urlencod` writes in its escapes.
pub open spec fn escape_char(c: char) -> bool {
    c == '%' || c == '0' || c == '2' || c == '3' || c == '5' || c == '6' || c == 'A' || c == 'B'
        || c == 'D' || c == 'F'
}

/// A character `urlencod` escapes.
pub open spec fn escaped(c: char) -> bool {
    c == '%' || c == ' ' || c == '&' || c == '=' || c == '+' || c == '/' || c == ':'
}

proof fn lemma_encoded_lacks(s: Seq<char>, c: char)
    requires
        !escape_char(c),
        escaped(c) || forall|j: int| 0 <= j < s.len() ==> s[j] != c,
    ensures
        forall|k: int| 0 <= k < url_encoded(s).len() ==> url_encoded(s)[k] != c,
    decreases s.len(),
{
    if s.len() > 0 {
        let t = s.skip(1);
        if !escaped(c) {
            assert forall|j: int| 0 <= j < t.len() implies t[j] != c by {
                assert(t[j] == s[j + 1]);
            }
        }
        lemma_encoded_lacks(t, c);
        let e = encoded_char(s[0]);
        let r = url_encoded(t);
        assert(url_encoded(s) == e + r);
        assert forall|k: int| 0 <= k < url_encoded(s).len() implies url_encoded(s)[k] != c by {
            if k >= e.len() {
                assert(url_encoded(s)[k] == r[k - e.len()]);
            }
        }
    }
}

proof fn lemma_find_in_concat(a: Seq<char>, b: Seq<char>, c: char)
    requires
        forall|k: int| 0 <= k < a.len() ==> a[k] != c,
    ensures
        find_char(a + b, c) == a.len() + find_char(b, c),
{
    lemma_find_char_bound(b, c);
    let s = a + b;
    let i: int = a.len() as int + find_char(b, c) as int;
    assert forall|k: int| 0 <= k < i implies s[k] != c by {
        if k >= a.len() {
            assert(s[k] == b[k - a.len()]);
        }
    }
    if i < s.len() {
        assert(s[i] == b[find_char(b, c) as int]);
    }
    lemma_find_char_is(s, c, i);
}

/// A parameter written with `urlencod` reads back: in a path whose query starts
/// with `key=<urlencod(value)>`, followed by nothing or by `&` and more pairs,
/// `extract_query_param` finds `value` (when neither the key nor the rest can
/// end the query early: no `?` in them, no `&` or `=` in the key).
pub proof fn lemma_encoded_param_reads_back(
    prefix: Seq<char>,
    key: Seq<char>,
    value: Seq<char>,
    rest: Seq<char>,
)
    requires
        forall|k: int| 0 <= k < prefix.len() ==> prefix[k] != '?',
        forall|k: int| 0 <= k < key.len() ==> key[k] != '?' && key[k] != '&' && key[k] != '=',
        forall|k: int| 0 <= k < value.len() ==> value[k] != '?',
        forall|k: int| 0 <= k < rest.len() ==> rest[k] != '?',
        rest.len() == 0 || rest[0] == '&',
    ensures
        query_param(prefix + seq!['?'] + key + seq!['='] + url_encoded(value) + rest, key)
            == Some(value),
{
    let enc = url_encoded(value);
    lemma_encoded_lacks(value, '?');
    lemma_encoded_lacks(value, '&');
    let q = key + seq!['='] + enc + rest;
    let path = prefix + seq!['?'] + q;
    assert(prefix + seq!['?'] + key + seq!['='] + enc + rest =~= path);
    assert(path =~= prefix + (seq!['?'] + q));
    lemma_find_in_concat(prefix, seq!['?'] + q, '?');
    assert(find_char(seq!['?'] + q, '?') == 0);
    assert(path.skip(prefix.len() as int + 1) =~= q);
    assert forall|k: int| 0 <= k < q.len() implies q[k] != '?' by {
        if k < key.len() {
            assert(q[k] == key[k]);
        } else if k == key.len() {
            assert(q[k] == '=');
        } else if k < key.len() + 1 + enc.len() {
            assert(q[k] == enc[k - key.len() - 1]);
        } else {
            assert(q[k] == rest[k - key.len() - 1 - enc.len()]);
        }
    }
    lemma_find_char_is(q, '?', q.len() as int);
    assert(q.take(q.len() as int) =~= q);
    assert(query_of(path) == Some(q));
    let pair = key + seq!['='] + enc;
    assert(q =~= pair + rest);
    assert forall|k: int| 0 <= k < pair.len() implies pair[k] != '&' by {
        if k < key.len() {
            assert(pair[k] == key[k]);
        } else if k > key.len() {
            assert(pair[k] == enc[k - key.len() - 1]);
        }
    }
    lemma_find_in_concat(pair, rest, '&');
    if rest.len() > 0 {
        assert(find_char(rest, '&') == 0);
    }
    assert(q.take(pair.len() as int) =~= pair);
    lemma_find_in_concat(key, seq!['='] + enc, '=');
    assert(key + (seq!['='] + enc) =~= pair);
    assert(find_char(seq!['='] + enc, '=') == 0);
    assert(pair.take(key.len() as int) =~= key);
    assert(pair.skip(key.len() as int + 1) =~= enc);
    lemma_decode_encode(value);
}

} // verus!
