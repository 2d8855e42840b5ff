use vstd::prelude::*;

verus! {

broadcast use vstd::string::group_string_axioms;

/// std's `String::push`: appends one character.
#[verifier::external_body]
pub fn push_char(s: &mut String, c: char)
    ensures
        final(s)@ == old(s)@.push(c),
{
    s.push(c)
}

/// The characters of `s`, in order.
pub fn chars_of(s: &str) -> (r: Vec<char>)
    ensures
        r@ == s@,
{
    let mut r: Vec<char> = Vec::new();
    for c in it: s.chars()
        invariant
            it.seq() == s@,
            r@ == it.seq().take(it.index() as int),
    {
        r.push(c);
    }
    r
}

/// An owned copy of a string slice.
pub fn owned(s: &str) -> (r: String)
    ensures
        r@ == s@,
{
    s.to_string()
}

/// Whether two strings hold the same characters.
pub fn str_eq(a: &str, b: &str) -> (r: bool)
    ensures
        r == (a@ == b@),
{
    let x = chars_of(a);
    let y = chars_of(b);
    if x.len() != y.len() {
        return false;
    }
    for i in 0..x.len()
        invariant
            x@ == a@,
            y@ == b@,
            x@.len() == y@.len(),
            forall|k: int| 0 <= k < i ==> x@[k] == y@[k],
    {
        if x[i] != y[i] {
            return false;
        }
    }
    assert(x@ =~= y@);
    true
}

/// `s` begins with `p`.
pub open spec fn has_prefix(s: Seq<char>, p: Seq<char>) -> bool {
    p.len() <= s.len() && s.take(p.len() as int) == p
}

/// `s` ends with `p`.
pub open spec fn has_suffix(s: Seq<char>, p: Seq<char>) -> bool {
    p.len() <= s.len() && s.skip(s.len() - p.len()) == p
}

/// Whether `s` begins with `p` (std's `str::starts_with` with a string pattern).
pub fn starts_with(s: &str, p: &str) -> (r: bool)
    ensures
        r == has_prefix(s@, p@),
{
    let x = chars_of(s);
    let y = chars_of(p);
    if y.len() > x.len() {
        return false;
    }
    for i in 0..y.len()
        invariant
            x@ == s@,
            y@ == p@,
            y@.len() <= x@.len(),
            forall|k: int| 0 <= k < i ==> x@[k] == y@[k],
    {
        if x[i] != y[i] {
            assert(s@.take(p@.len() as int)[i as int] != p@[i as int]);
            return false;
        }
    }
    assert(s@.take(p@.len() as int) =~= p@);
    true
}

/// Whether `s` ends with `p` (std's `str::ends_with` with a string pattern).
pub fn ends_with(s: &str, p: &str) -> (r: bool)
    ensures
        r == has_suffix(s@, p@),
{
    let x = chars_of(s);
    let y = chars_of(p);
    if y.len() > x.len() {
        return false;
    }
    let off = x.len() - y.len();
    let m = y.len();
    for i in 0..m
        invariant
            x@ == s@,
            y@ == p@,
            y@.len() <= x@.len(),
            m == y@.len(),
            off + m == x@.len(),
            x@.len() <= usize::MAX,
            forall|k: int| 0 <= k < i ==> x@[off + k] == y@[k],
    {
        if x[off + i] != y[i] {
            assert(s@.skip(s@.len() - p@.len())[i as int] != p@[i as int]);
            return false;
        }
    }
    assert(s@.skip(s@.len() - p@.len()) =~= p@);
    true
}

/// The remainder of `s` after the prefix `p`, when `s` begins with it
/// (std's `str::strip_prefix` with a string pattern).
pub fn strip_prefix(s: &str, p: &str) -> (r: Option<String>)
    ensures
        r is Some <==> has_prefix(s@, p@),
        r matches Some(t) ==> t@ == s@.skip(p@.len() as int),
{
    if !starts_with(s, p) {
        return None;
    }
    let x = chars_of(s);
    let n = p.unicode_len();
    let mut t = String::new();
    for i in n..x.len()
        invariant
            x@ == s@,
            n == p@.len(),
            n <= x@.len(),
            t@ == x@.subrange(n as int, i as int),
    {
        push_char(&mut t, x[i]);
        assert(x@.subrange(n as int, i + 1) == x@.subrange(n as int, i as int).push(x@[i as int]));
    }
    assert(x@.subrange(n as int, x@.len() as int) == s@.skip(p@.len() as int));
    Some(t)
}

/// Unicode's White_Space property, which std's `char::is_whitespace` tests
/// (the list of PropList.txt).
pub open spec fn is_white_space(c: char) -> bool {
    let u = c as u32;
    ||| 0x9 <= u <= 0xd
    ||| u == 0x20
    ||| u == 0x85
    ||| u == 0xa0
    ||| u == 0x1680
    ||| 0x2000 <= u <= 0x200a
    ||| u == 0x2028
    ||| u == 0x2029
    ||| u == 0x202f
    ||| u == 0x205f
    ||| u == 0x3000
}

/// Whether `c` is white space, as `char::is_whitespace` decides.
pub fn white_space(c: char) -> (r: bool)
    ensures
        r == is_white_space(c),
{
    let u = c as u32;
    (0x9 <= u && u <= 0xd) || u == 0x20 || u == 0x85 || u == 0xa0 || u == 0x1680 || (0x2000 <= u
        && u <= 0x200a) || u == 0x2028 || u == 0x2029 || u == 0x202f || u == 0x205f || u == 0x3000
}


/// Whether `s` holds the character `c`.
pub fn contains_char(s: &str, c: char) -> (r: bool)
    ensures
        r == s@.contains(c),
{
    let x = chars_of(s);
    for i in 0..x.len()
        invariant
            x@ == s@,
            forall|k: int| 0 <= k < i ==> x@[k] != c,
    {
        if x[i] == c {
            return true;
        }
    }
    false
}

/// Whether every character of `s` is white space, so that `s.trim()` is empty.
pub fn all_white_space(s: &str) -> (r: bool)
    ensures
        r == (forall|k: int| 0 <= k < s@.len() ==> is_white_space(#[trigger] s@[k])),
{
    let x = chars_of(s);
    for i in 0..x.len()
        invariant
            x@ == s@,
            forall|k: int| 0 <= k < i ==> is_white_space(#[trigger] x@[k]),
    {
        if !white_space(x[i]) {
            return false;
        }
    }
    true
}

/// The position of the first element of `s` that satisfies `p`, or the length of `s`
/// when none does.
pub open spec fn first_where<A>(s: Seq<A>, p: spec_fn(A) -> bool) -> nat
    decreases s.len(),
{
    if s.len() == 0 {
        0
    } else if p(s[0]) {
        0
    } else {
        1 + first_where(s.drop_first(), p)
    }
}

/// `first_where` is the index that a left-to-right scan stops at.
pub proof fn lemma_first_where<A>(s: Seq<A>, p: spec_fn(A) -> bool, i: int)
    requires
        0 <= i <= s.len(),
        forall|k: int| 0 <= k < i ==> !p(#[trigger] s[k]),
        i == s.len() || p(s[i]),
    ensures
        first_where(s, p) == i,
    decreases i,
{
    if i > 0 {
        assert forall|k: int| 0 <= k < i - 1 implies !p(#[trigger] s.drop_first()[k]) by {
            assert(s.drop_first()[k] == s[k + 1]);
        }
        if i < s.len() {
            assert(s.drop_first()[i - 1] == s[i]);
        }
        lemma_first_where(s.drop_first(), p, i - 1);
    }
}

/// The first position satisfying `p` is within the sequence exactly when some element
/// satisfies `p`, and no earlier element does.
pub proof fn lemma_first_where_found<A>(s: Seq<A>, p: spec_fn(A) -> bool)
    ensures
        first_where(s, p) <= s.len(),
        forall|k: int| 0 <= k < first_where(s, p) ==> !p(#[trigger] s[k]),
        first_where(s, p) < s.len() ==> p(s[first_where(s, p) as int]),
        first_where(s, p) == s.len() ==> forall|k: int| 0 <= k < s.len() ==> !p(#[trigger] s[k]),
    decreases s.len(),
{
    if s.len() > 0 && !p(s[0]) {
        lemma_first_where_found(s.drop_first(), p);
        assert forall|k: int| 0 <= k < first_where(s, p) implies !p(#[trigger] s[k]) by {
            if k > 0 {
                assert(s[k] == s.drop_first()[k - 1]);
            }
        }
        assert forall|k: int| 0 <= k < s.len() && first_where(s, p) == s.len() implies !p(
            #[trigger] s[k],
        ) by {
            if k > 0 {
                assert(s[k] == s.drop_first()[k - 1]);
            }
        }
    }
}

/// The white-space test, as a predicate.
pub open spec fn white() -> spec_fn(char) -> bool {
    |c: char| is_white_space(c)
}

/// The test for a character that is not white space, as a predicate.
pub open spec fn not_white() -> spec_fn(char) -> bool {
    |c: char| !is_white_space(c)
}

/// The test for a line feed, as a predicate.
pub open spec fn line_feed() -> spec_fn(char) -> bool {
    |c: char| c == '\n'
}

/// The first line of `s`, as `s.lines().next().unwrap_or("")` gives it: the text before
/// the first line feed, without a carriage return right before that line feed; the
/// whole text when it holds no line feed.
pub open spec fn first_line(s: Seq<char>) -> Seq<char> {
    let e = first_where(s, line_feed());
    if e < s.len() {
        let l = s.take(e as int);
        if l.len() > 0 && l.last() == '\r' {
            l.drop_last()
        } else {
            l
        }
    } else {
        s
    }
}

/// `s` without its leading white space.
pub open spec fn skip_white(s: Seq<char>) -> Seq<char> {
    s.skip(first_where(s, not_white()) as int)
}

/// The first white-space-separated field of `s`, if there is one.
pub open spec fn first_field(s: Seq<char>) -> Option<Seq<char>> {
    let t = skip_white(s);
    if t.len() == 0 {
        None
    } else {
        Some(t.take(first_where(t, white()) as int))
    }
}

/// What follows the first white-space-separated field of `s`.
pub open spec fn after_first_field(s: Seq<char>) -> Seq<char> {
    let t = skip_white(s);
    t.skip(first_where(t, white()) as int)
}

/// The field at position `n` (from 0) among the white-space-separated fields of `s`,
/// as `s.split_whitespace().nth(n)` gives it.
pub open spec fn nth_field(s: Seq<char>, n: nat) -> Option<Seq<char>>
    decreases n,
{
    if n == 0 {
        first_field(s)
    } else if first_field(s) is None {
        None
    } else {
        nth_field(after_first_field(s), (n - 1) as nat)
    }
}

/// Locates the first white-space-separated field of `v` from position `from`: the field
/// is `v[start..end]`, absent when `start == end`.
pub fn field_at(v: &Vec<char>, from: usize) -> (r: (usize, usize))
    requires
        from <= v@.len(),
    ensures
        from <= r.0 <= r.1 <= v@.len(),
        skip_white(v@.skip(from as int)) == v@.skip(r.0 as int),
        first_field(v@.skip(from as int)) == if r.0 == v@.len() {
            None::<Seq<char>>
        } else {
            Some(v@.subrange(r.0 as int, r.1 as int))
        },
        r.0 < v@.len() ==> r.0 < r.1,
        after_first_field(v@.skip(from as int)) == v@.skip(r.1 as int),
{
    let ghost t = v@.skip(from as int);
    let mut i = from;
    while i < v.len() && white_space(v[i])
        invariant
            from <= i <= v@.len(),
            forall|k: int| from <= k < i ==> is_white_space(#[trigger] v@[k]),
        decreases v@.len() - i,
    {
        i = i + 1;
    }
    proof {
        assert forall|k: int| 0 <= k < i - from implies !not_white()(#[trigger] t[k]) by {
            assert(t[k] == v@[from + k]);
        }
        if i < v@.len() {
            assert(t[i - from] == v@[i as int]);
        }
        lemma_first_where(t, not_white(), i - from);
        assert(t.skip(i - from) =~= v@.skip(i as int));
    }
    let ghost u = v@.skip(i as int);
    let mut j = i;
    while j < v.len() && !white_space(v[j])
        invariant
            i <= j <= v@.len(),
            forall|k: int| i <= k < j ==> !is_white_space(#[trigger] v@[k]),
        decreases v@.len() - j,
    {
        j = j + 1;
    }
    proof {
        assert forall|k: int| 0 <= k < j - i implies !white()(#[trigger] u[k]) by {
            assert(u[k] == v@[i + k]);
        }
        if j < v@.len() {
            assert(u[j - i] == v@[j as int]);
        }
        lemma_first_where(u, white(), j - i);
        assert(u.take(j - i) =~= v@.subrange(i as int, j as int));
        assert(u.skip(j - i) =~= v@.skip(j as int));
        if i < v@.len() {
            assert(!is_white_space(v@[i as int]));
        }
    }
    (i, j)
}

/// The field at position 0 of `s`, copied out.
pub fn first_field_of(s: &str) -> (r: Option<String>)
    ensures
        r is Some <==> first_field(s@) is Some,
        r matches Some(t) ==> first_field(s@) == Some(t@),
{
    let v = chars_of(s);
    assert(v@.skip(0) =~= v@);
    let (a, b) = field_at(&v, 0);
    if a == v.len() {
        None
    } else {
        Some(string_of_range(&v, a, b))
    }
}

/// The characters `v[a..b]` as a string.
pub fn string_of_range(v: &Vec<char>, a: usize, b: usize) -> (r: String)
    requires
        a <= b <= v@.len(),
    ensures
        r@ == v@.subrange(a as int, b as int),
{
    let mut r = String::new();
    for i in a..b
        invariant
            b <= v@.len(),
            r@ == v@.subrange(a as int, i as int),
    {
        push_char(&mut r, v[i]);
        assert(v@.subrange(a as int, i + 1) == v@.subrange(a as int, i as int).push(v@[i as int]));
    }
    r
}

/// The field at position 2 of `s`, copied out.
pub fn third_field_of(s: &str) -> (r: Option<String>)
    ensures
        r is Some <==> nth_field(s@, 2) is Some,
        r matches Some(t) ==> nth_field(s@, 2) == Some(t@),
{
    let v = chars_of(s);
    assert(v@.skip(0) =~= v@);
    proof {
        reveal_with_fuel(nth_field, 3);
    }
    let (a0, b0) = field_at(&v, 0);
    if a0 == v.len() {
        return None;
    }
    let (a1, b1) = field_at(&v, b0);
    if a1 == v.len() {
        return None;
    }
    let (a2, b2) = field_at(&v, b1);
    if a2 == v.len() {
        return None;
    }
    Some(string_of_range(&v, a2, b2))
}


/// The first line of `s`, copied out (`s.lines().next().unwrap_or("")`).
pub fn first_line_of(s: &str) -> (r: String)
    ensures
        r@ == first_line(s@),
{
    let v = chars_of(s);
    let mut i: usize = 0;
    while i < v.len() && v[i] != '\n'
        invariant
            i <= v@.len(),
            forall|k: int| 0 <= k < i ==> v@[k] != '\n',
        decreases v@.len() - i,
    {
        i = i + 1;
    }
    proof {
        assert forall|k: int| 0 <= k < i implies !line_feed()(#[trigger] v@[k]) by {}
        lemma_first_where(v@, line_feed(), i as int);
    }
    if i < v.len() {
        let mut e = i;
        if e > 0 && v[e - 1] == '\r' {
            e = e - 1;
            assert(v@.take(i as int).drop_last() =~= v@.subrange(0, e as int));
        } else {
            assert(v@.take(i as int) =~= v@.subrange(0, e as int));
        }
        string_of_range(&v, 0, e)
    } else {
        assert(v@.subrange(0, v@.len() as int) =~= v@);
        string_of_range(&v, 0, v.len())
    }
}

/// The decimal digit for `d`, from 0 to 9.
pub open spec fn digit_char(d: int) -> char {
    ((48 + d) as u8) as char
}

/// The lower-case hexadecimal digit for `d`, from 0 to 15.
pub open spec fn hex_char(d: int) -> char {
    if d < 10 {
        ((48 + d) as u8) as char
    } else {
        ((87 + d) as u8) as char
    }
}

/// The decimal notation of `n`, without leading zeros (as `{}` formats an unsigned
/// integer).
pub open spec fn decimal(n: nat) -> Seq<char>
    decreases n,
{
    if n < 10 {
        seq![digit_char(n as int)]
    } else {
        decimal(n / 10).push(digit_char((n % 10) as int))
    }
}

/// The decimal notation of a signed integer: a minus sign before the notation of its
/// magnitude when it is negative.
pub open spec fn signed_decimal(n: int) -> Seq<char> {
    if n < 0 {
        seq!['-'] + decimal((-n) as nat)
    } else {
        decimal(n as nat)
    }
}

/// Two lower-case hexadecimal digits for each byte, most significant first (as `{:x}`
/// formats a digest).
pub open spec fn hex_lower(b: Seq<u8>) -> Seq<char>
    decreases b.len(),
{
    if b.len() == 0 {
        Seq::empty()
    } else {
        hex_lower(b.drop_last()) + seq![hex_char((b.last() / 16) as int), hex_char((b.last() % 16) as int)]
    }
}

/// Appends the decimal notation of `n` to `s`.
pub fn push_decimal(s: &mut String, n: u64)
    ensures
        final(s)@ == old(s)@ + decimal(n as nat),
    decreases n,
{
    if n >= 10 {
        push_decimal(s, n / 10);
    }
    let d: u8 = (n % 10) as u8;
    push_char(s, (48u8 + d) as char);
    assert(final(s)@ == old(s)@ + decimal(n as nat));
}

/// Appends the decimal notation of the signed `n` to `s`.
pub fn push_signed_decimal(s: &mut String, n: i32)
    ensures
        final(s)@ == old(s)@ + signed_decimal(n as int),
{
    if n < 0 {
        push_char(s, '-');
        let m: i64 = n as i64;
        push_decimal(s, (-m) as u64);
        assert(final(s)@ =~= old(s)@ + signed_decimal(n as int));
    } else {
        push_decimal(s, n as u64);
    }
}

/// The lower-case hexadecimal notation of `bytes`.
pub fn hex_string(bytes: &[u8]) -> (r: String)
    ensures
        r@ == hex_lower(bytes@),
{
    let mut s = String::new();
    for i in 0..bytes.len()
        invariant
            s@ == hex_lower(bytes@.take(i as int)),
    {
        let b = bytes[i];
        let hi: u8 = b / 16;
        let lo: u8 = b % 16;
        let c1 = if hi < 10 { (48u8 + hi) as char } else { (87u8 + hi) as char };
        let c2 = if lo < 10 { (48u8 + lo) as char } else { (87u8 + lo) as char };
        push_char(&mut s, c1);
        push_char(&mut s, c2);
        proof {
            let t = bytes@.take(i + 1);
            assert(t.drop_last() =~= bytes@.take(i as int));
            assert(t.last() == b);
            assert(s@ =~= hex_lower(t));
        }
    }
    assert(bytes@.take(bytes@.len() as int) =~= bytes@);
    s
}

/// The test for a character other than `c`, as a predicate.
pub open spec fn other_than(c: char) -> spec_fn(char) -> bool {
    |x: char| x != c
}

/// `s` without its leading occurrences of `c` (`s.trim_start_matches(c)`).
pub open spec fn trim_leading(s: Seq<char>, c: char) -> Seq<char> {
    s.skip(first_where(s, other_than(c)) as int)
}

/// `s` without its leading occurrences of `c`, copied out.
pub fn trim_leading_char(s: &str, c: char) -> (r: String)
    ensures
        r@ == trim_leading(s@, c),
{
    let v = chars_of(s);
    let mut i: usize = 0;
    while i < v.len() && v[i] == c
        invariant
            i <= v@.len(),
            forall|k: int| 0 <= k < i ==> v@[k] == c,
        decreases v@.len() - i,
    {
        i = i + 1;
    }
    proof {
        assert forall|k: int| 0 <= k < i implies !other_than(c)(#[trigger] v@[k]) by {}
        lemma_first_where(v@, other_than(c), i as int);
        assert(v@.subrange(i as int, v@.len() as int) =~= v@.skip(i as int));
    }
    string_of_range(&v, i, v.len())
}

/// What std's `str::to_lowercase` returns for `s` (the Unicode lower-case mapping).
pub uninterp spec fn unicode_lowercase(s: Seq<char>) -> Seq<char>;

/// std's `str::to_lowercase`: the lower-case form of `s`, named `unicode_lowercase`.
#[verifier::external_body]
pub fn to_lowercase(s: &str) -> (r: String)
    ensures
        r@ == unicode_lowercase(s@),
{
    s.to_lowercase()
}

/// What std's `String::from_utf8_lossy` returns for `bytes`.
pub uninterp spec fn utf8_lossy(bytes: Seq<u8>) -> Seq<char>;

/// std's `String::from_utf8_lossy`: the text of `bytes`, with each invalid sequence
/// replaced by U+FFFD; as its documentation says, valid UTF-8 is decoded unchanged.
#[verifier::external_body]
pub fn from_utf8_lossy(bytes: &[u8]) -> (r: String)
    ensures
        r@ == utf8_lossy(bytes@),
        vstd::utf8::valid_utf8(bytes@) ==> r@ == vstd::utf8::decode_utf8(bytes@),
{
    String::from_utf8_lossy(bytes).into_owned()
}

} // verus!
