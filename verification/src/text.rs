use vstd::prelude::*;

verus! {

broadcast use vstd::string::group_string_axioms;

/// The characters of a string slice, in order.
pub fn chars_of(s: &str) -> (r: Vec<char>)
    ensures
        r@ == s@,
{
    let mut r: Vec<char> = Vec::new();
    for c in iter: s.chars()
        invariant
            r@ == iter.seq().take(iter.index()),
            iter.seq() == s@,
    {
        r.push(c);
    }
    r
}

/// `String::from_utf8`: the text that `bytes` encode, or `None` when they
/// are not valid UTF-8.
#[verifier::external_body]
pub(crate) fn string_from_utf8(bytes: Vec<u8>) -> (r: Option<String>)
    ensures
        r is Some <==> vstd::utf8::valid_utf8(bytes@),
        r matches Some(s) ==> s@ == vstd::utf8::decode_utf8(bytes@),
{
    String::from_utf8(bytes).ok()
}

/// `String::from_iter` over the characters of `v`: a `String` holding
/// exactly those characters, in order.
#[verifier::external_body]
pub(crate) fn string_from_chars(v: &Vec<char>) -> (r: String)
    ensures
        r@ == v@,
{
    String::from_iter(v.iter())
}


/// The character of a decimal digit.
pub open spec fn decimal_digit(d: nat) -> char {
    (48 + d) as char
}

/// The character of a lower-case hexadecimal digit.
pub open spec fn hex_digit(d: nat) -> char {
    if d < 10 {
        (48 + d) as char
    } else {
        (87 + d) as char
    }
}

/// The decimal notation of `n`, as `format!("{}", n)` writes it.
pub open spec fn decimal(n: nat) -> Seq<char>
    decreases n,
{
    if n < 10 {
        seq![decimal_digit(n)]
    } else {
        decimal(n / 10).push(decimal_digit(n % 10))
    }
}

/// The `width` lowest hexadecimal digits of `n`, most significant first.
pub open spec fn hex_fixed(n: nat, width: nat) -> Seq<char>
    decreases width,
{
    if width == 0 {
        seq![]
    } else {
        hex_fixed(n / 16, (width - 1) as nat).push(hex_digit(n % 16))
    }
}

/// `n` as `format!("{:016x}", n)` writes a `u64`: sixteen lower-case
/// hexadecimal digits, zero-padded.
pub open spec fn hex16(n: u64) -> Seq<char> {
    hex_fixed(n as nat, 16)
}

fn digit_char(d: u64) -> (c: char)
    requires
        d < 10,
    ensures
        c == decimal_digit(d as nat),
{
    ((48u64 + d) as u8) as char
}

fn hex_char(d: u64) -> (c: char)
    requires
        d < 16,
    ensures
        c == hex_digit(d as nat),
{
    if d < 10 {
        ((48u64 + d) as u8) as char
    } else {
        ((87u64 + d) as u8) as char
    }
}

/// Appends the decimal notation of `n` to `out`.
pub fn push_decimal(n: u64, out: &mut Vec<char>)
    ensures
        final(out)@ == old(out)@ + decimal(n as nat),
    decreases n,
{
    if n >= 10 {
        push_decimal(n / 10, out);
    }
    out.push(digit_char(n % 10));
    assert(final(out)@ =~= old(out)@ + decimal(n as nat));
}

/// Appends the `width` lowest hexadecimal digits of `n` to `out`.
fn push_hex_fixed(n: u64, width: u64, out: &mut Vec<char>)
    ensures
        final(out)@ == old(out)@ + hex_fixed(n as nat, width as nat),
    decreases width,
{
    if width > 0 {
        push_hex_fixed(n / 16, width - 1, out);
        out.push(hex_char(n % 16));
        assert(final(out)@ =~= old(out)@ + hex_fixed(n as nat, width as nat));
    } else {
        assert(final(out)@ =~= old(out)@ + hex_fixed(n as nat, width as nat));
    }
}

/// `format!("{}", n)` for a `u64`.
pub fn decimal_string(n: u64) -> (r: String)
    ensures
        r@ == decimal(n as nat),
{
    let mut v: Vec<char> = Vec::new();
    push_decimal(n, &mut v);
    assert(v@ =~= decimal(n as nat));
    string_from_chars(&v)
}

/// `format!("{:016x}", n)` for a `u64`.
pub fn hex16_string(n: u64) -> (r: String)
    ensures
        r@ == hex16(n),
{
    let mut v: Vec<char> = Vec::new();
    push_hex_fixed(n, 16, &mut v);
    assert(v@ =~= hex16(n));
    string_from_chars(&v)
}

/// Whether two string slices hold the same characters, as `str`'s `==` decides.
pub fn str_eq(a: &str, b: &str) -> (r: bool)
    ensures
        r == (a@ == b@),
{
    let x = chars_of(a);
    let y = chars_of(b);
    if x.len() != y.len() {
        return false;
    }
    let mut i: usize = 0;
    while i < x.len()
        invariant
            x@ == a@,
            y@ == b@,
            x.len() == y.len(),
            i <= x.len(),
            forall|j: int| 0 <= j < i ==> x@[j] == y@[j],
        decreases x.len() - i,
    {
        if x[i] != y[i] {
            return false;
        }
        i = i + 1;
    }
    assert(x@ =~= y@);
    true
}

/// Unicode's `White_Space` property, which `char::is_whitespace` and
/// `str::trim` go by.
pub open spec fn is_white_space(c: char) -> bool {
    let u = c as u32;
    (9 <= u <= 13) || u == 32 || u == 0x85 || u == 0xa0 || u == 0x1680 || (0x2000 <= u <= 0x200a)
        || u == 0x2028 || u == 0x2029 || u == 0x202f || u == 0x205f || u == 0x3000
}

/// Whether `c` has Unicode's `White_Space` property.
pub fn white_space(c: char) -> (r: bool)
    ensures
        r == is_white_space(c),
{
    let u = c as u32;
    (9 <= u && u <= 13) || u == 32 || u == 0x85 || u == 0xa0 || u == 0x1680 || (0x2000 <= u && u
        <= 0x200a) || u == 0x2028 || u == 0x2029 || u == 0x202f || u == 0x205f || u == 0x3000
}

/// `s` without its leading white space.
pub open spec fn trim_front(s: Seq<char>) -> Seq<char>
    decreases s.len(),
{
    if s.len() > 0 && is_white_space(s[0]) {
        trim_front(s.drop_first())
    } else {
        s
    }
}

/// `s` without its trailing white space.
pub open spec fn trim_back(s: Seq<char>) -> Seq<char>
    decreases s.len(),
{
    if s.len() > 0 && is_white_space(s.last()) {
        trim_back(s.drop_last())
    } else {
        s
    }
}

/// `s` without leading and trailing white space, as `str::trim` gives it.
pub open spec fn trim(s: Seq<char>) -> Seq<char> {
    trim_back(trim_front(s))
}

/// `str::trim`: a copy of `s` without leading and trailing white space.
pub fn trimmed(s: &str) -> (r: String)
    ensures
        r@ == trim(s@),
{
    let v = chars_of(s);
    let mut i: usize = 0;
    assert(s@.subrange(0, v@.len() as int) =~= s@);
    while i < v.len() && white_space(v[i])
        invariant
            v@ == s@,
            i <= v@.len(),
            trim_front(s@) == trim_front(s@.subrange(i as int, v@.len() as int)),
        decreases v@.len() - i,
    {
        assert(s@.subrange(i as int, v@.len() as int).drop_first() =~= s@.subrange(
            i + 1,
            v@.len() as int,
        ));
        i = i + 1;
    }
    assert(trim_front(s@) == s@.subrange(i as int, v@.len() as int));
    let ghost front = s@.subrange(i as int, v@.len() as int);
    let mut j: usize = v.len();
    while j > i && white_space(v[j - 1])
        invariant
            v@ == s@,
            i <= j <= v@.len(),
            front == s@.subrange(i as int, v@.len() as int),
            trim_back(front) == trim_back(s@.subrange(i as int, j as int)),
        decreases j,
    {
        assert(s@.subrange(i as int, j as int).drop_last() =~= s@.subrange(i as int, j - 1));
        j = j - 1;
    }
    let mut out: Vec<char> = Vec::new();
    let mut k: usize = i;
    while k < j
        invariant
            v@ == s@,
            i <= k <= j <= v@.len(),
            out@ == s@.subrange(i as int, k as int),
        decreases j - k,
    {
        out.push(v[k]);
        k = k + 1;
        assert(out@ =~= s@.subrange(i as int, k as int));
    }
    string_from_chars(&out)
}

/// Whether `pat` occurs in `s` at position `i`.
pub open spec fn occurs_at(s: Seq<char>, pat: Seq<char>, i: int) -> bool {
    0 <= i && i + pat.len() <= s.len() && s.subrange(i, i + pat.len()) == pat
}

/// Whether `pat` occurs anywhere in `s`, as `str::contains` decides.
pub open spec fn contains(s: Seq<char>, pat: Seq<char>) -> bool {
    exists|i: int| occurs_at(s, pat, i)
}

/// Whether `pat` occurs in `s` at position `i`.
fn chars_occur_at(s: &Vec<char>, pat: &Vec<char>, i: usize) -> (r: bool)
    ensures
        r == occurs_at(s@, pat@, i as int),
{
    if pat.len() > s.len() || i > s.len() - pat.len() {
        return false;
    }
    let mut k: usize = 0;
    while k < pat.len()
        invariant
            i + pat.len() <= s.len(),
            k <= pat.len(),
            forall|m: int| 0 <= m < k ==> s@[i + m] == pat@[m],
        decreases pat@.len() - k,
    {
        if s[i + k] != pat[k] {
            assert(s@.subrange(i as int, i + pat@.len())[k as int] != pat@[k as int]);
            return false;
        }
        k = k + 1;
    }
    assert(s@.subrange(i as int, i + pat@.len()) =~= pat@);
    true
}

/// `str::contains` with a string pattern.
pub fn str_contains(s: &str, pat: &str) -> (r: bool)
    ensures
        r == contains(s@, pat@),
{
    let v = chars_of(s);
    let p = chars_of(pat);
    let mut i: usize = 0;
    while i < v.len()
        invariant
            v@ == s@,
            p@ == pat@,
            i <= v@.len(),
            forall|m: int| 0 <= m < i ==> !occurs_at(s@, pat@, m),
        decreases v@.len() - i,
    {
        if chars_occur_at(&v, &p, i) {
            return true;
        }
        i = i + 1;
    }
    if chars_occur_at(&v, &p, i) {
        return true;
    }
    assert forall|m: int| !occurs_at(s@, pat@, m) by {
        if 0 <= m && m + pat@.len() <= s@.len() {
            assert(m <= i);
        }
    }
    false
}

/// The pieces of `s` between the occurrences of `sep`, taken from the
/// front as `str::split` takes them.
pub open spec fn split_by(s: Seq<char>, sep: Seq<char>) -> Seq<Seq<char>>
    decreases s.len(),
{
    if sep.len() > 0 && s.len() >= sep.len() && s.take(sep.len() as int) == sep {
        seq![Seq::<char>::empty()] + split_by(s.skip(sep.len() as int), sep)
    } else if s.len() == 0 {
        seq![Seq::<char>::empty()]
    } else {
        let rest = split_by(s.drop_first(), sep);
        rest.update(0, seq![s[0]] + rest[0])
    }
}

/// `split_by` always gives at least one piece.
pub proof fn lemma_split_by_nonempty(s: Seq<char>, sep: Seq<char>)
    ensures
        split_by(s, sep).len() >= 1,
    decreases s.len(),
{
    if sep.len() > 0 && s.len() >= sep.len() && s.take(sep.len() as int) == sep {
        lemma_split_by_nonempty(s.skip(sep.len() as int), sep);
    } else if s.len() > 0 {
        lemma_split_by_nonempty(s.drop_first(), sep);
    }
}

/// The views of a list of strings.
pub open spec fn views(v: Seq<String>) -> Seq<Seq<char>> {
    v.map_values(|x: String| x@)
}

/// `s.split(sep)` collected: the pieces of `s` between the occurrences of
/// the non-empty separator `sep`.
pub fn split_str(s: &str, sep: &str) -> (r: Vec<String>)
    requires
        sep@.len() > 0,
    ensures
        views(r@) == split_by(s@, sep@),
{
    let v = chars_of(s);
    let p = chars_of(sep);
    let mut done: Vec<String> = Vec::new();
    let mut cur: Vec<char> = Vec::new();
    let mut i: usize = 0;
    proof {
        lemma_split_by_nonempty(s@, sep@);
        assert(s@.skip(0) =~= s@);
        assert(views(done@) =~= Seq::<Seq<char>>::empty());
        assert(cur@ + split_by(s@, sep@)[0] =~= split_by(s@, sep@)[0]);
        assert(split_by(s@, sep@) =~= views(done@) + seq![cur@ + split_by(s@, sep@)[0]]
            + split_by(s@, sep@).drop_first());
    }
    while i < v.len()
        invariant
            v@ == s@,
            p@ == sep@,
            sep@.len() > 0,
            i <= v@.len(),
            split_by(s@.skip(i as int), sep@).len() >= 1,
            split_by(s@, sep@) == views(done@) + seq![cur@ + split_by(s@.skip(i as int), sep@)[0]]
                + split_by(s@.skip(i as int), sep@).drop_first(),
        decreases v@.len() - i,
    {
        let ghost t = s@.skip(i as int);
        let ghost old_cur = cur@;
        if chars_occur_at(&v, &p, i) {
            proof {
                assert(t.take(sep@.len() as int) =~= sep@);
                assert(t.skip(sep@.len() as int) =~= s@.skip(i + sep@.len()));
                lemma_split_by_nonempty(s@.skip(i + sep@.len()), sep@);
            }
            let piece = string_from_chars(&cur);
            done.push(piece);
            cur = Vec::new();
            i = i + p.len();
            proof {
                assert(views(done@) =~= views(done@.drop_last()).push(piece@));
                assert(seq![Seq::<char>::empty()] + split_by(s@.skip(i as int), sep@) =~= split_by(t, sep@));
                assert(cur@ + split_by(s@.skip(i as int), sep@)[0] =~= split_by(s@.skip(i as int), sep@)[0]);
                assert(split_by(s@, sep@) =~= views(done@) + seq![cur@ + split_by(s@.skip(i as int), sep@)[0]]
                + split_by(s@.skip(i as int), sep@).drop_first());
            }
        } else {
            proof {
                if t.len() >= sep@.len() {
                    assert(!(t.take(sep@.len() as int) =~= sep@) || !occurs_at(s@, sep@, i as int));
                    if t.take(sep@.len() as int) == sep@ {
                        assert(s@.subrange(i as int, i + sep@.len()) =~= t.take(sep@.len() as int));
                    }
                }
                assert(t.drop_first() =~= s@.skip(i + 1));
                lemma_split_by_nonempty(s@.skip(i + 1), sep@);
            }
            cur.push(v[i]);
            i = i + 1;
            proof {
                let rest = split_by(s@.skip(i as int), sep@);
                assert(split_by(t, sep@) == rest.update(0, seq![t[0]] + rest[0]));
                assert(split_by(t, sep@)[0] == seq![t[0]] + rest[0]);
                assert(cur@ == old_cur.push(t[0]));
                assert(cur@ + rest[0] =~= old_cur + (seq![t[0]] + rest[0]));
                assert(rest.update(0, seq![t[0]] + rest[0]).drop_first() =~= rest.drop_first());
                assert(split_by(s@, sep@) =~= views(done@) + seq![cur@ + rest[0]] + rest.drop_first());
            }
        }
    }
    proof {
        assert(s@.skip(i as int) =~= Seq::<char>::empty());
    }
    let last = string_from_chars(&cur);
    done.push(last);
    proof {
        assert(views(done@) =~= views(done@.drop_last()).push(last@));
        assert(cur@ + Seq::<char>::empty() =~= cur@);
        assert(views(done@) =~= split_by(s@, sep@));
    }
    done
}

/// The value of a string of decimal digits.
pub open spec fn digits_value(d: Seq<char>) -> nat
    decreases d.len(),
{
    if d.len() == 0 {
        0
    } else {
        digits_value(d.drop_last()) * 10 + ((d.last() as nat) - 48) as nat
    }
}

/// Whether every character of `d` is an ASCII digit.
pub open spec fn all_digits(d: Seq<char>) -> bool {
    forall|i: int| 0 <= i < d.len() ==> '0' <= #[trigger] d[i] <= '9'
}

/// What `s.parse::<usize>()` gives, as an `Option`: an optional `+`, then
/// one or more ASCII digits whose value fits in a `usize`.
pub open spec fn parsed_usize(s: Seq<char>) -> Option<usize> {
    let d = if s.len() > 0 && s[0] == '+' {
        s.drop_first()
    } else {
        s
    };
    if d.len() > 0 && all_digits(d) && digits_value(d) <= usize::MAX {
        Some(digits_value(d) as usize)
    } else {
        None
    }
}

/// `s.parse::<usize>().ok()`.
pub fn parse_usize(s: &str) -> (r: Option<usize>)
    ensures
        r == parsed_usize(s@),
{
    let v = chars_of(s);
    let start: usize = if v.len() > 0 && v[0] == '+' {
        1
    } else {
        0
    };
    let ghost d = if s@.len() > 0 && s@[0] == '+' {
        s@.drop_first()
    } else {
        s@
    };
    assert(d =~= s@.skip(start as int));
    if v.len() == start {
        assert(d.len() == 0);
        return None;
    }
    let mut value: usize = 0;
    let mut overflow = false;
    let mut i: usize = start;
    while i < v.len()
        invariant
            v@ == s@,
            d == s@.skip(start as int),
            d == (if s@.len() > 0 && s@[0] == '+' {
                s@.drop_first()
            } else {
                s@
            }),
            start <= i <= v@.len(),
            all_digits(d.take(i - start)),
            !overflow ==> value == digits_value(d.take(i - start)),
            overflow ==> digits_value(d.take(i - start)) > usize::MAX,
        decreases v@.len() - i,
    {
        let c = v[i];
        if !('0' <= c && c <= '9') {
            assert(!all_digits(d)) by {
                assert(d[i - start] == c);
                assert(!('0' <= d[i - start] <= '9'));
            }
            return None;
        }
        let dv = (c as u32 - 48) as usize;
        assert(d.take(i + 1 - start).drop_last() =~= d.take(i - start));
        assert(d.take(i + 1 - start).last() == c);
        if !overflow {
            if value > (usize::MAX - dv) / 10 {
                overflow = true;
            } else {
                value = value * 10 + dv;
            }
        }
        i = i + 1;
        assert(all_digits(d.take(i - start))) by {
            assert forall|m: int| 0 <= m < d.take(i - start).len() implies '0' <= #[trigger] d.take(
                i - start,
            )[m] <= '9' by {
                if m < i - 1 - start {
                    assert(d.take(i - start)[m] == d.take(i - 1 - start)[m]);
                }
            }
        }
    }
    assert(d.take(i - start) =~= d);
    if overflow {
        None
    } else {
        Some(value)
    }
}

/// Appends the characters of `s` to `out`.
pub fn push_str(out: &mut Vec<char>, s: &str)
    ensures
        final(out)@ == old(out)@ + s@,
{
    let ghost start = out@;
    for c in iter: s.chars()
        invariant
            iter.seq() == s@,
            out@ == start + iter.seq().take(iter.index()),
    {
        out.push(c);
        proof {
            assert(out@ =~= start + iter.seq().take(iter.index() + 1));
        }
    }
    assert(s@.take(s@.len() as int) =~= s@);
}

/// `lines` joined with `sep` between each two, as `[..].join(sep)` does.
pub open spec fn join(lines: Seq<Seq<char>>, sep: Seq<char>) -> Seq<char>
    decreases lines.len(),
{
    if lines.len() == 0 {
        Seq::<char>::empty()
    } else if lines.len() == 1 {
        lines[0]
    } else {
        join(lines.drop_last(), sep) + sep + lines.last()
    }
}

/// `lines.join(sep)`.
pub fn join_strings(lines: &Vec<String>, sep: &str) -> (r: String)
    ensures
        r@ == join(views(lines@), sep@),
{
    let mut out: Vec<char> = Vec::new();
    let mut i: usize = 0;
    while i < lines.len()
        invariant
            i <= lines@.len(),
            out@ == join(views(lines@.take(i as int)), sep@),
        decreases lines@.len() - i,
    {
        proof {
            assert(views(lines@.take(i + 1)).drop_last() =~= views(lines@.take(i as int)));
        }
        if i > 0 {
            push_str(&mut out, sep);
        }
        push_str(&mut out, lines[i].as_str());
        i = i + 1;
        proof {
            if i == 1 {
                assert(out@ =~= join(views(lines@.take(i as int)), sep@));
            }
        }
    }
    assert(lines@.take(i as int) =~= lines@);
    string_from_chars(&out)
}

/// The decimal notation of `n` is a string of digits whose value is `n`.
pub proof fn lemma_decimal_digits(n: nat)
    ensures
        decimal(n).len() > 0,
        all_digits(decimal(n)),
        digits_value(decimal(n)) == n,
    decreases n,
{
    assert((decimal_digit(n % 10) as nat) == 48 + n % 10);
    let s = decimal(n);
    assert(s.last() == decimal_digit(n % 10));
    assert(digits_value(s) == digits_value(s.drop_last()) * 10 + n % 10);
    if n < 10 {
        assert(s.drop_last() =~= Seq::<char>::empty());
        assert(n % 10 == n);
    } else {
        lemma_decimal_digits(n / 10);
        let d = decimal(n / 10);
        assert(decimal(n).drop_last() =~= d);
        assert(n == (n / 10) * 10 + n % 10);
        assert forall|i: int| 0 <= i < decimal(n).len() implies '0' <= #[trigger] decimal(n)[i]
            <= '9' by {
            if i < d.len() {
                assert(decimal(n)[i] == d[i]);
            }
        }
    }
}

/// A number written in decimal reads back as itself: `parse::<usize>`
/// gives back every `usize` that `format!("{}", ..)` wrote.
pub proof fn lemma_decimal_parses_back(n: usize)
    ensures
        parsed_usize(decimal(n as nat)) == Some(n),
{
    lemma_decimal_digits(n as nat);
    let d = decimal(n as nat);
    assert(d[0] != '+') by {
        assert('0' <= d[0] <= '9');
    }
}

} // verus!
