//! Character-level helpers shared by configuration and request handling:
//! blank checks, trimming, comma-separated lists, lowercase conversion and
//! decimal number parsing, each stated over the `Seq<char>` view of a string.
use vstd::prelude::*;
use vstd::string::*;

verus! {

/// What `str::to_lowercase` returns for a string, as a function of its characters.
pub uninterp spec fn lowercase(s: Seq<char>) -> Seq<char>;

/// Whether a character has the Unicode `White_Space` property, which is what
/// `char::is_whitespace` tests: U+0009 to U+000D, U+0020, U+0085, U+00A0, U+1680,
/// U+2000 to U+200A, U+2028, U+2029, U+202F, U+205F and U+3000.
pub open spec fn is_whitespace(c: char) -> bool {
    let u = c as u32;
    ||| 0x09 <= u <= 0x0d
    ||| u == 0x20
    ||| u == 0x85
    ||| u == 0xa0
    ||| u == 0x1680
    ||| 0x2000 <= u <= 0x200a
    ||| u == 0x2028
    ||| u == 0x2029
    ||| u == 0x202f
    ||| u == 0x205f
    ||| u == 0x3000
}

/// Calls `str::to_lowercase`; the result is named `lowercase` of the input's characters.
#[verifier::external_body]
pub(crate) fn to_lowercase(s: &str) -> (r: String)
    ensures
        r@ == lowercase(s@),
{
    s.to_lowercase()
}

/// Whether a character is whitespace in the sense of `char::is_whitespace`.
pub fn char_is_whitespace(c: char) -> (r: bool)
    ensures
        r == is_whitespace(c),
{
    let u = c as u32;
    (0x09 <= u && u <= 0x0d) || u == 0x20 || u == 0x85 || u == 0xa0 || u == 0x1680 || (0x2000 <= u
        && u <= 0x200a) || u == 0x2028 || u == 0x2029 || u == 0x202f || u == 0x205f || u == 0x3000
}

/// A string is blank when every character is whitespace (so `trim()` leaves nothing).
pub open spec fn is_blank(s: Seq<char>) -> bool {
    forall|i: int| 0 <= i < s.len() ==> is_whitespace(#[trigger] s[i])
}

/// Leading whitespace removed.
pub open spec fn trim_start(s: Seq<char>) -> Seq<char>
    decreases s.len(),
{
    if s.len() > 0 && is_whitespace(s[0]) {
        trim_start(s.drop_first())
    } else {
        s
    }
}

/// Trailing whitespace removed.
pub open spec fn trim_end(s: Seq<char>) -> Seq<char>
    decreases s.len(),
{
    if s.len() > 0 && is_whitespace(s.last()) {
        trim_end(s.drop_last())
    } else {
        s
    }
}

/// Leading and trailing whitespace removed.
pub open spec fn trim(s: Seq<char>) -> Seq<char> {
    trim_end(trim_start(s))
}

/// The pieces of `s` between commas, in order; a string without commas is one piece,
/// and the empty string is one empty piece.
pub open spec fn split_commas(s: Seq<char>) -> Seq<Seq<char>>
    decreases s.len(),
{
    if s.len() == 0 {
        seq![Seq::<char>::empty()]
    } else {
        let parts = split_commas(s.drop_last());
        if s.last() == ',' {
            parts.push(Seq::<char>::empty())
        } else {
            parts.update(parts.len() - 1, parts.last().push(s.last()))
        }
    }
}

/// The trimmed pieces that are not empty, in order.
pub open spec fn nonempty_trimmed(parts: Seq<Seq<char>>) -> Seq<Seq<char>>
    decreases parts.len(),
{
    if parts.len() == 0 {
        Seq::<Seq<char>>::empty()
    } else {
        let rest = nonempty_trimmed(parts.drop_last());
        if trim(parts.last()).len() > 0 {
            rest.push(trim(parts.last()))
        } else {
            rest
        }
    }
}

/// The items of a comma-separated list: split at commas, trim each piece, drop empty ones.
pub open spec fn csv_items(s: Seq<char>) -> Seq<Seq<char>> {
    nonempty_trimmed(split_commas(s))
}

/// The characters of a list of strings.
pub open spec fn strings_view(v: Seq<String>) -> Seq<Seq<char>> {
    v.map_values(|x: String| x@)
}

pub open spec fn is_digit(c: char) -> bool {
    '0' <= c && c <= '9'
}

pub open spec fn digit_value(c: char) -> int {
    c as int - '0' as int
}

/// A non-empty run of ASCII decimal digits.
pub open spec fn all_digits(d: Seq<char>) -> bool {
    d.len() > 0 && forall|i: int| 0 <= i < d.len() ==> is_digit(#[trigger] d[i])
}

/// The number written by a run of decimal digits.
pub open spec fn digits_value(d: Seq<char>) -> int
    decreases d.len(),
{
    if d.len() == 0 {
        0
    } else {
        digits_value(d.drop_last()) * 10 + digit_value(d.last())
    }
}

/// The value of `d` when it is a run of digits whose value is at most `limit`.
pub open spec fn bounded_digits(d: Seq<char>, limit: int) -> Option<int> {
    if all_digits(d) && digits_value(d) <= limit {
        Some(digits_value(d))
    } else {
        None
    }
}

/// What `str::parse::<usize>` accepts: an optional `+` followed by digits, at most `usize::MAX`.
pub open spec fn parse_usize_spec(s: Seq<char>) -> Option<int> {
    if s.len() > 0 && s[0] == '+' {
        bounded_digits(s.drop_first(), usize::MAX as int)
    } else {
        bounded_digits(s, usize::MAX as int)
    }
}

/// What `str::parse::<i32>` accepts: an optional sign followed by digits, within `i32`.
pub open spec fn parse_i32_spec(s: Seq<char>) -> Option<int> {
    if s.len() > 0 && s[0] == '-' {
        match bounded_digits(s.drop_first(), 0x8000_0000) {
            Some(v) => Some(-v),
            None => None,
        }
    } else if s.len() > 0 && s[0] == '+' {
        bounded_digits(s.drop_first(), 0x7fff_ffff)
    } else {
        bounded_digits(s, 0x7fff_ffff)
    }
}

/// What `str::parse::<bool>` accepts: exactly `true` or `false`.
pub open spec fn parse_bool_spec(s: Seq<char>) -> Option<bool> {
    if s == "true"@ {
        Some(true)
    } else if s == "false"@ {
        Some(false)
    } else {
        None
    }
}

/// `base` and `name` joined by a single `/` (no separator is added after an empty base
/// or after a base that already ends in `/`).
pub open spec fn path_join(base: Seq<char>, name: Seq<char>) -> Seq<char> {
    if base.len() == 0 {
        name
    } else if base.last() == '/' {
        base + name
    } else {
        base + seq!['/'] + name
    }
}

pub(crate) fn owned(s: &str) -> (r: String)
    ensures
        r@ == s@,
{
    s.to_owned()
}

pub(crate) fn concat(a: &str, b: &str) -> (r: String)
    ensures
        r@ == a@ + b@,
{
    let mut s = a.to_owned();
    s.append(b);
    s
}

pub(crate) fn same_text(a: &str, b: &str) -> (r: bool)
    ensures
        r == (a@ == b@),
{
    let x = a.to_owned();
    let y = b.to_owned();
    x == y
}

fn piece(s: &str, from: usize, to: usize) -> (r: String)
    requires
        from <= to <= s@.len(),
    ensures
        r@ == s@.subrange(from as int, to as int),
{
    s.substring_char(from, to).to_owned()
}

/// Whether every character of `s` is whitespace.
pub fn is_blank_str(s: &str) -> (r: bool)
    ensures
        r == is_blank(s@),
{
    let len = s.unicode_len();
    let mut i: usize = 0;
    while i < len
        invariant
            len == s@.len(),
            i <= len,
            forall|j: int| 0 <= j < i ==> is_whitespace(#[trigger] s@[j]),
        decreases len - i,
    {
        if !char_is_whitespace(s.get_char(i)) {
            return false;
        }
        i = i + 1;
    }
    true
}

proof fn lemma_trim_start_skip(s: Seq<char>, a: int)
    requires
        0 <= a <= s.len(),
        forall|j: int| 0 <= j < a ==> is_whitespace(#[trigger] s[j]),
        a == s.len() || !is_whitespace(s[a]),
    ensures
        trim_start(s) == s.skip(a),
    decreases a,
{
    if a == 0 {
        assert(s.skip(0) =~= s);
    } else {
        let t = s.drop_first();
        assert forall|j: int| 0 <= j < a - 1 implies is_whitespace(#[trigger] t[j]) by {
            assert(t[j] == s[j + 1]);
        }
        lemma_trim_start_skip(t, a - 1);
        assert(t.skip(a - 1) =~= s.skip(a));
    }
}

proof fn lemma_trim_end_take(s: Seq<char>, b: int)
    requires
        0 <= b <= s.len(),
        forall|j: int| b <= j < s.len() ==> is_whitespace(#[trigger] s[j]),
        b == 0 || !is_whitespace(s[b - 1]),
    ensures
        trim_end(s) == s.take(b),
    decreases s.len() - b,
{
    if b == s.len() {
        assert(s.take(b) =~= s);
    } else {
        let t = s.drop_last();
        assert(is_whitespace(s[s.len() - 1]));
        assert forall|j: int| b <= j < t.len() implies is_whitespace(#[trigger] t[j]) by {
            assert(t[j] == s[j]);
        }
        lemma_trim_end_take(t, b);
        assert(t.take(b) =~= s.take(b));
    }
}

/// `s` with leading and trailing whitespace removed.
pub fn trim_str(s: &str) -> (r: String)
    ensures
        r@ == trim(s@),
{
    let len = s.unicode_len();
    let mut a: usize = 0;
    while a < len && char_is_whitespace(s.get_char(a))
        invariant
            len == s@.len(),
            a <= len,
            forall|j: int| 0 <= j < a ==> is_whitespace(#[trigger] s@[j]),
        decreases len - a,
    {
        a = a + 1;
    }
    proof {
        lemma_trim_start_skip(s@, a as int);
    }
    let mut b: usize = len;
    while b > a && char_is_whitespace(s.get_char(b - 1))
        invariant
            len == s@.len(),
            a <= b <= len,
            forall|j: int| b <= j < len ==> is_whitespace(#[trigger] s@[j]),
        decreases b,
    {
        b = b - 1;
    }
    proof {
        let t = s@.skip(a as int);
        assert forall|j: int| b - a <= j < t.len() implies is_whitespace(#[trigger] t[j]) by {
            assert(t[j] == s@[j + a]);
        }
        if b > a {
            assert(t[b - a - 1] == s@[b - 1]);
        }
        lemma_trim_end_take(t, b - a);
        assert(t.take(b - a) =~= s@.subrange(a as int, b as int));
    }
    piece(s, a, b)
}

pub proof fn lemma_split_commas_nonempty(s: Seq<char>)
    ensures
        split_commas(s).len() >= 1,
    decreases s.len(),
{
    if s.len() > 0 {
        lemma_split_commas_nonempty(s.drop_last());
    }
}

/// The pieces of `s` between commas, in order.
pub fn split_on_commas(s: &str) -> (r: Vec<String>)
    ensures
        strings_view(r@) == split_commas(s@),
{
    let len = s.unicode_len();
    let mut pieces: Vec<String> = Vec::new();
    let mut start: usize = 0;
    let mut i: usize = 0;
    proof {
        assert(s@.take(0) =~= Seq::<char>::empty());
        assert(s@.subrange(0, 0) =~= Seq::<char>::empty());
        assert(split_commas(s@.take(0)) =~= strings_view(pieces@).push(s@.subrange(0, 0)));
    }
    while i < len
        invariant
            len == s@.len(),
            start <= i <= len,
            split_commas(s@.take(i as int)) == strings_view(pieces@).push(
                s@.subrange(start as int, i as int),
            ),
        decreases len - i,
    {
        let c = s.get_char(i);
        proof {
            assert(s@.take(i + 1).drop_last() =~= s@.take(i as int));
            assert(s@.take(i + 1).last() == c);
            lemma_split_commas_nonempty(s@.take(i as int));
        }
        if c == ',' {
            let seg = piece(s, start, i);
            let ghost old_pieces = pieces@;
            pieces.push(seg);
            proof {
                assert(strings_view(pieces@) =~= strings_view(old_pieces).push(
                    s@.subrange(start as int, i as int),
                ));
                assert(s@.subrange(i + 1, i + 1) =~= Seq::<char>::empty());
                assert(split_commas(s@.take(i + 1)) =~= strings_view(pieces@).push(
                    s@.subrange(i + 1, i + 1),
                ));
            }
            start = i + 1;
        } else {
            proof {
                assert(s@.subrange(start as int, i + 1) =~= s@.subrange(start as int, i as int).push(
                    c,
                ));
                assert(split_commas(s@.take(i + 1)) =~= strings_view(pieces@).push(
                    s@.subrange(start as int, i + 1),
                ));
            }
        }
        i = i + 1;
    }
    let seg = piece(s, start, len);
    let ghost old_pieces = pieces@;
    pieces.push(seg);
    proof {
        assert(s@.take(len as int) =~= s@);
        assert(strings_view(pieces@) =~= strings_view(old_pieces).push(
            s@.subrange(start as int, len as int),
        ));
    }
    pieces
}

/// The items of the comma-separated list `s`: pieces between commas, trimmed, empty ones dropped.
pub fn parse_csv(s: &str) -> (r: Vec<String>)
    ensures
        strings_view(r@) == csv_items(s@),
{
    let pieces = split_on_commas(s);
    let n = pieces.len();
    let mut items: Vec<String> = Vec::new();
    let mut i: usize = 0;
    proof {
        assert(strings_view(pieces@).take(0) =~= Seq::<Seq<char>>::empty());
    }
    while i < n
        invariant
            n == pieces@.len(),
            i <= n,
            strings_view(items@) == nonempty_trimmed(strings_view(pieces@).take(i as int)),
        decreases n - i,
    {
        let t = trim_str(pieces[i].as_str());
        let ghost old_items = items@;
        if t.unicode_len() > 0 {
            items.push(t);
        }
        proof {
            let ps = strings_view(pieces@);
            assert(ps.take(i + 1).drop_last() =~= ps.take(i as int));
            assert(ps.take(i + 1).last() == pieces@[i as int]@);
            assert(strings_view(old_items.push(t)) =~= strings_view(old_items).push(t@));
        }
        i = i + 1;
    }
    proof {
        assert(strings_view(pieces@).take(n as int) =~= strings_view(pieces@));
    }
    items
}

proof fn lemma_digits_prefix_monotone(d: Seq<char>, k: int)
    requires
        0 <= k <= d.len(),
        forall|i: int| 0 <= i < d.len() ==> is_digit(#[trigger] d[i]),
    ensures
        digits_value(d) >= digits_value(d.take(k)),
        digits_value(d.take(k)) >= 0,
    decreases d.len(),
{
    if k == d.len() {
        assert(d.take(k) =~= d);
        lemma_digits_nonneg(d);
    } else {
        let e = d.drop_last();
        assert forall|i: int| 0 <= i < e.len() implies is_digit(#[trigger] e[i]) by {
            assert(e[i] == d[i]);
        }
        lemma_digits_prefix_monotone(e, k);
        assert(e.take(k) =~= d.take(k));
        assert(is_digit(d[d.len() - 1]));
    }
}

proof fn lemma_digits_nonneg(d: Seq<char>)
    requires
        forall|i: int| 0 <= i < d.len() ==> is_digit(#[trigger] d[i]),
    ensures
        digits_value(d) >= 0,
    decreases d.len(),
{
    if d.len() > 0 {
        let e = d.drop_last();
        assert forall|i: int| 0 <= i < e.len() implies is_digit(#[trigger] e[i]) by {
            assert(e[i] == d[i]);
        }
        lemma_digits_nonneg(e);
        assert(is_digit(d[d.len() - 1]));
    }
}

/// The value of the digits of `s` from position `from` on, when they are all digits
/// (at least one) and the value is at most `limit`.
fn digits_from(s: &str, from: usize, limit: u64) -> (r: Option<u64>)
    requires
        from <= s@.len(),
    ensures
        match bounded_digits(s@.skip(from as int), limit as int) {
            Some(v) => r == Some(v as u64),
            None => r is None,
        },
        r matches Some(x) ==> x <= limit,
        bounded_digits(s@.skip(from as int), limit as int) matches Some(v) ==> 0 <= v <= limit,
{
    let len = s.unicode_len();
    let ghost d = s@.skip(from as int);
    proof {
        if all_digits(d) {
            lemma_digits_nonneg(d);
        }
    }
    if from == len {
        return None;
    }
    let mut acc: u64 = 0;
    let mut i: usize = from;
    proof {
        assert(d.take(0) =~= Seq::<char>::empty());
    }
    while i < len
        invariant
            len == s@.len(),
            from <= i <= len,
            d == s@.skip(from as int),
            d.len() > 0,
            forall|j: int| 0 <= j < i - from ==> is_digit(#[trigger] d[j]),
            acc as int == digits_value(d.take(i - from)),
            acc <= limit,
        decreases len - i,
    {
        let c = s.get_char(i);
        proof {
            assert(d[i - from] == c);
        }
        if !('0' <= c && c <= '9') {
            return None;
        }
        let dv: u64 = ((c as u32) - ('0' as u32)) as u64;
        let next: u128 = (acc as u128) * 10 + (dv as u128);
        proof {
            assert(d.take(i - from + 1).drop_last() =~= d.take(i - from));
            assert(d.take(i - from + 1).last() == c);
        }
        if next > limit as u128 {
            proof {
                if all_digits(d) {
                    lemma_digits_prefix_monotone(d, i - from + 1);
                }
            }
            return None;
        }
        acc = next as u64;
        i = i + 1;
    }
    proof {
        assert(d.take(len - from) =~= d);
    }
    Some(acc)
}

/// `str::parse::<usize>` as its documentation states it: an optional `+`, then decimal digits.
pub fn parse_usize(s: &str) -> (r: Option<usize>)
    ensures
        match parse_usize_spec(s@) {
            Some(v) => r == Some(v as usize),
            None => r is None,
        },
        parse_usize_spec(s@) matches Some(v) ==> 0 <= v <= usize::MAX,
{
    let len = s.unicode_len();
    let from: usize = if len > 0 && s.get_char(0) == '+' { 1 } else { 0 };
    proof {
        assert(s@.skip(0) =~= s@);
        if len > 0 {
            assert(s@.skip(1) =~= s@.drop_first());
        }
    }
    let r = digits_from(s, from, usize::MAX as u64);
    proof {
        if from == 1 {
            assert(s@.skip(from as int) == s@.drop_first());
            assert(parse_usize_spec(s@) == bounded_digits(s@.skip(from as int), usize::MAX as int));
        } else {
            assert(s@.skip(from as int) == s@);
            assert(parse_usize_spec(s@) == bounded_digits(s@.skip(from as int), usize::MAX as int));
        }
    }
    match r {
        Some(v) => Some(v as usize),
        None => None,
    }
}

/// `str::parse::<i32>` as its documentation states it: an optional sign, then decimal digits.
pub fn parse_i32(s: &str) -> (r: Option<i32>)
    ensures
        match parse_i32_spec(s@) {
            Some(v) => r == Some(v as i32),
            None => r is None,
        },
        parse_i32_spec(s@) matches Some(v) ==> i32::MIN <= v <= i32::MAX,
{
    let len = s.unicode_len();
    proof {
        assert(s@.skip(0) =~= s@);
        if len > 0 {
            assert(s@.skip(1) =~= s@.drop_first());
        }
    }
    if len > 0 && s.get_char(0) == '-' {
        match digits_from(s, 1, 0x8000_0000) {
            Some(v) => {
                let n: i64 = 0 - (v as i64);
                Some(n as i32)
            },
            None => None,
        }
    } else {
        let from: usize = if len > 0 && s.get_char(0) == '+' { 1 } else { 0 };
        match digits_from(s, from, 0x7fff_ffff) {
            Some(v) => Some(v as i32),
            None => None,
        }
    }
}

/// `str::parse::<bool>` as its documentation states it: exactly `true` or `false`.
pub fn parse_bool(s: &str) -> (r: Option<bool>)
    ensures
        r == parse_bool_spec(s@),
{
    if same_text(s, "true") {
        Some(true)
    } else if same_text(s, "false") {
        Some(false)
    } else {
        None
    }
}

/// `base` and `name` joined by one `/`.
pub fn join_path(base: &str, name: &str) -> (r: String)
    ensures
        r@ == path_join(base@, name@),
{
    let len = base.unicode_len();
    if len == 0 {
        owned(name)
    } else if base.get_char(len - 1) == '/' {
        concat(base, name)
    } else {
        let with_sep = concat(base, "/");
        proof {
            reveal_strlit("/");
            assert("/"@ =~= seq!['/']);
        }
        concat(with_sep.as_str(), name)
    }
}

/// Every item of a comma-separated list is non-empty.
pub proof fn lemma_csv_items_nonempty(s: Seq<char>)
    ensures
        forall|i: int| 0 <= i < csv_items(s).len() ==> (#[trigger] csv_items(s)[i]).len() > 0,
{
    lemma_nonempty_trimmed_nonempty(split_commas(s));
}

proof fn lemma_nonempty_trimmed_nonempty(parts: Seq<Seq<char>>)
    ensures
        forall|i: int|
            0 <= i < nonempty_trimmed(parts).len() ==> (#[trigger] nonempty_trimmed(parts)[i]).len()
                > 0,
    decreases parts.len(),
{
    if parts.len() > 0 {
        lemma_nonempty_trimmed_nonempty(parts.drop_last());
        let rest = nonempty_trimmed(parts.drop_last());
        assert forall|i: int|
            0 <= i < nonempty_trimmed(parts).len() implies (#[trigger] nonempty_trimmed(
            parts,
        )[i]).len() > 0 by {
            if i < rest.len() {
                assert(nonempty_trimmed(parts)[i] == rest[i]);
            }
        }
    }
}

/// Appending text without commas to `s` extends its last piece.
pub proof fn lemma_split_append_no_comma(s: Seq<char>, c: Seq<char>)
    requires
        !c.contains(','),
    ensures
        split_commas(s + c).len() == split_commas(s).len(),
        split_commas(s + c) == split_commas(s).update(
            split_commas(s).len() - 1,
            split_commas(s).last() + c,
        ),
    decreases c.len(),
{
    lemma_split_commas_nonempty(s);
    let p = split_commas(s);
    if c.len() == 0 {
        assert(s + c =~= s);
        assert(p.last() + c =~= p.last());
        assert(p.update(p.len() - 1, p.last() + c) =~= p);
    } else {
        let d = c.drop_last();
        assert(!d.contains(',')) by {
            if d.contains(',') {
                let i = choose|i: int| 0 <= i < d.len() && d[i] == ',';
                assert(c[i] == ',');
            }
        }
        assert(c[c.len() - 1] != ',');
        lemma_split_append_no_comma(s, d);
        assert((s + c).drop_last() =~= s + d);
        assert((s + c).last() == c.last());
        let q = split_commas(s + d);
        assert(q.last() == p.last() + d);
        assert((p.last() + d).push(c.last()) =~= p.last() + c);
        assert(split_commas(s + c) =~= p.update(p.len() - 1, p.last() + c));
    }
}

/// Text without commas is a single piece.
pub proof fn lemma_split_single(a: Seq<char>)
    requires
        !a.contains(','),
    ensures
        split_commas(a) == seq![a],
{
    lemma_split_append_no_comma(Seq::<char>::empty(), a);
    assert(Seq::<char>::empty() + a =~= a);
    assert(Seq::<char>::empty() + a =~= a);
    assert(split_commas(Seq::<char>::empty()).update(0, Seq::<char>::empty() + a) =~= seq![a]);
}

/// Two comma-free texts joined by one comma split back into the two.
pub proof fn lemma_split_pair(a: Seq<char>, c: Seq<char>)
    requires
        !a.contains(','),
        !c.contains(','),
    ensures
        split_commas(a + seq![','] + c) == seq![a, c],
{
    lemma_split_single(a);
    let ac = a + seq![','];
    assert(ac.drop_last() =~= a);
    assert(ac.last() == ',');
    assert(split_commas(ac) =~= seq![a, Seq::<char>::empty()]);
    lemma_split_append_no_comma(ac, c);
    assert(Seq::<char>::empty() + c =~= c);
    assert(split_commas(ac + c) =~= seq![a, c]);
}

/// Joining comma-free texts gives a comma-free path.
pub proof fn lemma_path_join_no_comma(base: Seq<char>, name: Seq<char>)
    requires
        !base.contains(','),
        !name.contains(','),
    ensures
        !path_join(base, name).contains(','),
{
    let p = path_join(base, name);
    if p.contains(',') {
        let i = choose|i: int| 0 <= i < p.len() && p[i] == ',';
        if base.len() == 0 {
            assert(name[i] == ',');
        } else if base.last() == '/' {
            if i < base.len() {
                assert(base[i] == ',');
            } else {
                assert(name[i - base.len()] == ',');
            }
        } else {
            if i < base.len() {
                assert(base[i] == ',');
            } else if i == base.len() {
                assert(p[i] == '/');
            } else {
                assert(name[i - base.len() - 1] == ',');
            }
        }
    }
}

} // verus!
