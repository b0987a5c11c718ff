//! Text as sequences of characters: searching, trimming, splitting, and the
//! decimal notation of integers.

use vstd::prelude::*;
use vstd::string::*;
use vstd::utf8::encode_utf8;

verus! {

/// What an optional string holds.
pub open spec fn opt_text(o: Option<String>) -> Option<Seq<char>> {
    match o {
        Some(s) => Some(s@),
        None => None,
    }
}

/// What the strings of a list hold, in order.
pub open spec fn texts(v: Seq<String>) -> Seq<Seq<char>> {
    v.map_values(|s: String| s@)
}

/// `String::push` puts one character behind the others.
pub assume_specification[ String::push ](s: &mut String, ch: char)
    ensures
        final(s)@ == old(s)@.push(ch),
;

/// The characters of a string, one by one.
pub fn to_chars(s: &str) -> (r: Vec<char>)
    ensures
        r@ == s@,
{
    let mut out: Vec<char> = Vec::new();
    for c in it: s.chars()
        invariant
            it.seq() == s@,
            out@ == s@.take(it.index() as int),
    {
        out.push(c);
        assert(s@.take(it.index() + 1) =~= s@.take(it.index() as int).push(c));
    }
    assert(s@.take(s@.len() as int) =~= s@);
    out
}

/// The string that a run of characters spells.
pub fn from_chars(v: &Vec<char>, from: usize, to: usize) -> (r: String)
    requires
        from <= to <= v@.len(),
    ensures
        r@ == v@.subrange(from as int, to as int),
{
    let mut out: String = String::new();
    let mut i: usize = from;
    while i < to
        invariant
            from <= i <= to <= v@.len(),
            out@ == v@.subrange(from as int, i as int),
        decreases to - i,
    {
        out.push(v[i]);
        i = i + 1;
        assert(v@.subrange(from as int, i as int) =~= v@.subrange(from as int, i - 1).push(v@[i - 1]));
    }
    assert(v@.subrange(from as int, from as int) =~= Seq::<char>::empty());
    out
}

/// Whether two strings hold the same characters.
pub fn same(a: &str, b: &str) -> (r: bool)
    ensures
        r == (a@ == b@),
{
    a.to_owned() == b.to_owned()
}

/// A copy of a list of strings.
pub fn copy_texts(v: &Vec<String>) -> (r: Vec<String>)
    ensures
        r@ == v@,
{
    let mut out: Vec<String> = Vec::new();
    let mut i: usize = 0;
    while i < v.len()
        invariant
            i <= v@.len(),
            out@ == v@.take(i as int),
        decreases v@.len() - i,
    {
        out.push(v[i].clone());
        i = i + 1;
        assert(v@.take(i as int) =~= v@.take(i - 1).push(v@[i - 1]));
    }
    assert(v@.take(v@.len() as int) =~= v@);
    out
}

/// How many bytes a text takes.
pub open spec fn byte_len(s: Seq<char>) -> nat {
    encode_utf8(s).len()
}

/// Counts the bytes of a text.
pub fn count_bytes(s: &str) -> (r: usize)
    ensures
        r == byte_len(s@),
{
    let bytes = s.as_bytes();
    bytes.len()
}

// ── Searching ───────────────────────────────────────────────────────────────

/// Where `c` stands first.
pub fn find(v: &Vec<char>, c: char) -> (r: Option<usize>)
    ensures
        v@.index_of_first(c) == (match r {
            Some(i) => Some(i as int),
            None => None,
        }),
        r matches Some(i) ==> i < v@.len() && v@[i as int] == c,
{
    let mut i: usize = 0;
    while i < v.len()
        invariant
            i <= v@.len(),
            forall|k: int| 0 <= k < i ==> v@[k] != c,
        decreases v@.len() - i,
    {
        if v[i] == c {
            proof {
                assert(v@.contains(c));
                v@.index_of_first_ensures(c);
            }
            return Some(i);
        }
        i = i + 1;
    }
    proof {
        v@.index_of_first_ensures(c);
    }
    None
}

/// Where `c` stands last.
pub fn rfind(v: &Vec<char>, c: char) -> (r: Option<usize>)
    ensures
        v@.index_of_last(c) == (match r {
            Some(i) => Some(i as int),
            None => None,
        }),
        r matches Some(i) ==> i < v@.len() && v@[i as int] == c,
{
    let mut i: usize = v.len();
    while i > 0
        invariant
            i <= v@.len(),
            forall|k: int| i <= k < v@.len() ==> v@[k] != c,
        decreases i,
    {
        i = i - 1;
        if v[i] == c {
            proof {
                assert(v@.contains(c));
                v@.index_of_last_ensures(c);
            }
            return Some(i);
        }
    }
    proof {
        v@.index_of_last_ensures(c);
    }
    None
}

/// Whether `pat` stands in `s` at index `at`.
pub open spec fn occurs_at(s: Seq<char>, pat: Seq<char>, at: int) -> bool {
    0 <= at && at + pat.len() <= s.len() && s.subrange(at, at + pat.len()) == pat
}

/// Whether `pat` stands anywhere in `s`.
pub open spec fn has_text(s: Seq<char>, pat: Seq<char>) -> bool {
    exists|at: int| #[trigger] occurs_at(s, pat, at)
}

/// Whether `s` begins with `pat`.
pub open spec fn starts_with(s: Seq<char>, pat: Seq<char>) -> bool {
    occurs_at(s, pat, 0)
}

/// Whether `s` ends with `pat`.
pub open spec fn ends_with(s: Seq<char>, pat: Seq<char>) -> bool {
    occurs_at(s, pat, s.len() - pat.len())
}

/// Tests for `pat` at one place.
pub fn at(s: &Vec<char>, pat: &Vec<char>, from: usize) -> (r: bool)
    requires
        from <= s@.len(),
    ensures
        r == occurs_at(s@, pat@, from as int),
{
    if s.len() - from < pat.len() {
        return false;
    }
    let n: usize = s.len();
    let mut i: usize = 0;
    while i < pat.len()
        invariant
            i <= pat@.len(),
            n == s@.len(),
            from + pat@.len() <= s@.len(),
            forall|k: int| 0 <= k < i ==> s@[from + k] == pat@[k],
        decreases pat@.len() - i,
    {
        if s[from + i] != pat[i] {
            assert(s@.subrange(from as int, from + pat@.len())[i as int] != pat@[i as int]);
            return false;
        }
        i = i + 1;
    }
    assert(s@.subrange(from as int, from + pat@.len()) =~= pat@);
    true
}

/// Tests whether `s` begins with `pat`.
pub fn begins(s: &str, pat: &str) -> (r: bool)
    ensures
        r == starts_with(s@, pat@),
{
    let sv = to_chars(s);
    let pv = to_chars(pat);
    at(&sv, &pv, 0)
}

/// Tests whether `pat` stands anywhere in `s`.
pub fn holds(s: &str, pat: &str) -> (r: bool)
    ensures
        r == has_text(s@, pat@),
{
    let sv = to_chars(s);
    let pv = to_chars(pat);
    let mut i: usize = 0;
    loop
        invariant
            i <= sv@.len(),
            sv@ == s@,
            pv@ == pat@,
            forall|k: int| 0 <= k < i ==> !#[trigger] occurs_at(s@, pat@, k),
        decreases sv@.len() - i,
    {
        if at(&sv, &pv, i) {
            return true;
        }
        if i == sv.len() {
            assert forall|k: int| !#[trigger] occurs_at(s@, pat@, k) by {
                if occurs_at(s@, pat@, k) {
                    assert(0 <= k <= sv@.len());
                }
            }
            return false;
        }
        i = i + 1;
    }
}

/// `s` with every `pat` in it, taken from the left without overlap, replaced.
pub open spec fn replaced(s: Seq<char>, pat: Seq<char>, with: Seq<char>) -> Seq<char>
    decreases s.len(),
{
    if pat.len() == 0 || s.len() < pat.len() {
        s
    } else if starts_with(s, pat) {
        with + replaced(s.skip(pat.len() as int), pat, with)
    } else {
        seq![s[0]] + replaced(s.skip(1), pat, with)
    }
}

/// Replaces every `pat` in `s`.
pub fn replace(s: &str, pat: &str, with: &str) -> (r: String)
    requires
        pat@.len() > 0,
    ensures
        r@ == replaced(s@, pat@, with@),
{
    let sv = to_chars(s);
    let pv = to_chars(pat);
    let mut out: String = String::new();
    let mut i: usize = 0;
    assert(s@.skip(0) =~= s@);
    while i < sv.len() && sv.len() - i >= pv.len()
        invariant
            i <= sv@.len(),
            sv@ == s@,
            pv@ == pat@,
            pat@.len() > 0,
            out@ + replaced(s@.skip(i as int), pat@, with@) == replaced(s@, pat@, with@),
        decreases sv@.len() - i,
    {
        let ghost rest = s@.skip(i as int);
        assert(rest.subrange(0, pat@.len() as int) =~= s@.subrange(i as int, i + pat@.len()));
        if at(&sv, &pv, i) {
            let ghost before = out@;
            out.append(with);
            assert(rest.skip(pat@.len() as int) =~= s@.skip(i + pat@.len()));
            i = i + pv.len();
            assert(out@ + replaced(s@.skip(i as int), pat@, with@)
                =~= before + (with@ + replaced(s@.skip(i as int), pat@, with@)));
        } else {
            let ghost before = out@;
            out.push(sv[i]);
            assert(rest.skip(1) =~= s@.skip(i + 1));
            i = i + 1;
            assert(out@ + replaced(s@.skip(i as int), pat@, with@)
                =~= before + (seq![rest[0]] + replaced(s@.skip(i as int), pat@, with@)));
        }
    }
    let rest = from_chars(&sv, i, sv.len());
    assert(rest@ =~= s@.skip(i as int));
    assert(replaced(s@.skip(i as int), pat@, with@) == s@.skip(i as int));
    out.append(rest.as_str());
    out
}

// ── Paths ───────────────────────────────────────────────────────────────────

/// A path below a directory. An absolute path stays as it is, and one below an
/// empty directory is not prefixed.
pub open spec fn joined(dir: Seq<char>, path: Seq<char>) -> Seq<char> {
    if dir.len() == 0 || (path.len() > 0 && path[0] == '/') {
        path
    } else if dir.last() == '/' {
        dir + path
    } else {
        dir + "/"@ + path
    }
}

/// Puts a path below a directory.
pub fn join_path(dir: &str, path: &str) -> (r: String)
    ensures
        r@ == joined(dir@, path@),
{
    let d = to_chars(dir);
    let p = to_chars(path);
    if d.len() == 0 || (p.len() > 0 && p[0] == '/') {
        path.to_owned()
    } else if d[d.len() - 1] == '/' {
        dir.to_owned().concat(path)
    } else {
        dir.to_owned().concat("/").concat(path)
    }
}

// ── Case and white space ────────────────────────────────────────────────────

/// A character with an ASCII capital made small.
pub open spec fn lower_char(c: char) -> char {
    if 'A' <= c && c <= 'Z' {
        ((c as u8) + 32) as char
    } else {
        c
    }
}

/// A text with its ASCII capitals made small.
pub open spec fn lowered(s: Seq<char>) -> Seq<char> {
    s.map_values(|c: char| lower_char(c))
}

/// Makes one ASCII capital small.
pub fn lower_one(c: char) -> (r: char)
    ensures
        r == lower_char(c),
{
    if 'A' <= c && c <= 'Z' {
        ((c as u8) + 32) as char
    } else {
        c
    }
}

/// Makes the ASCII capitals of a text small.
pub fn lower(s: &str) -> (r: String)
    ensures
        r@ == lowered(s@),
{
    let v = to_chars(s);
    let mut out: String = String::new();
    let mut i: usize = 0;
    while i < v.len()
        invariant
            i <= v@.len(),
            v@ == s@,
            out@ == lowered(s@.take(i as int)),
        decreases v@.len() - i,
    {
        out.push(lower_one(v[i]));
        i = i + 1;
        assert(lowered(s@.take(i as int)) =~= lowered(s@.take(i - 1)).push(lower_char(s@[i - 1])));
    }
    assert(s@.take(s@.len() as int) =~= s@);
    out
}

/// The characters that Unicode calls white space.
pub open spec fn is_white(c: char) -> bool {
    ('\u{9}' <= c && c <= '\u{d}') || c == ' ' || c == '\u{85}' || c == '\u{a0}' || c == '\u{1680}'
        || ('\u{2000}' <= c && c <= '\u{200a}') || c == '\u{2028}' || c == '\u{2029}' || c
        == '\u{202f}' || c == '\u{205f}' || c == '\u{3000}'
}

/// Tests for white space.
pub fn white(c: char) -> (r: bool)
    ensures
        r == is_white(c),
{
    ('\u{9}' <= c && c <= '\u{d}') || c == ' ' || c == '\u{85}' || c == '\u{a0}' || c == '\u{1680}'
        || ('\u{2000}' <= c && c <= '\u{200a}') || c == '\u{2028}' || c == '\u{2029}' || c
        == '\u{202f}' || c == '\u{205f}' || c == '\u{3000}'
}

/// A text without the white space at its front.
pub open spec fn trimmed_front(s: Seq<char>) -> Seq<char>
    decreases s.len(),
{
    if s.len() > 0 && is_white(s[0]) {
        trimmed_front(s.skip(1))
    } else {
        s
    }
}

/// A text without the white space at its end.
pub open spec fn trimmed_back(s: Seq<char>) -> Seq<char>
    decreases s.len(),
{
    if s.len() > 0 && is_white(s.last()) {
        trimmed_back(s.drop_last())
    } else {
        s
    }
}

/// A text without the white space at its front and end.
pub open spec fn trimmed(s: Seq<char>) -> Seq<char> {
    trimmed_back(trimmed_front(s))
}

/// Takes the white space off both ends.
pub fn trim(s: &str) -> (r: String)
    ensures
        r@ == trimmed(s@),
{
    let v = to_chars(s);
    let mut i: usize = 0;
    assert(s@.skip(0) =~= s@);
    while i < v.len() && white(v[i])
        invariant
            i <= v@.len(),
            v@ == s@,
            trimmed_front(s@.skip(i as int)) == trimmed_front(s@),
        decreases v@.len() - i,
    {
        assert(s@.skip(i as int).skip(1) =~= s@.skip(i + 1));
        i = i + 1;
    }
    let ghost front = s@.skip(i as int);
    assert(trimmed_front(s@) == front);
    let mut j: usize = v.len();
    assert(front.take(front.len() as int) =~= front);
    while j > i && white(v[j - 1])
        invariant
            i <= j <= v@.len(),
            v@ == s@,
            front == s@.skip(i as int),
            trimmed_back(front.take(j - i)) == trimmed_back(front),
        decreases j - i,
    {
        assert(front.take(j - i).drop_last() =~= front.take(j - i - 1));
        j = j - 1;
    }
    assert(front.take(j - i) =~= s@.subrange(i as int, j as int));
    from_chars(&v, i, j)
}

// ── Lines and fields ────────────────────────────────────────────────────────

/// The pieces of `s` between the separators.
pub open spec fn split(s: Seq<char>, sep: char) -> Seq<Seq<char>>
    decreases s.len(),
    via split_shrinks
{
    match s.index_of_first(sep) {
        Some(i) => seq![s.take(i)] + split(s.skip(i + 1), sep),
        None => seq![s],
    }
}

#[via_fn]
proof fn split_shrinks(s: Seq<char>, sep: char) {
    s.index_of_first_ensures(sep);
}

/// Splits a text at every separator.
pub fn split_at(s: &str, sep: char) -> (r: Vec<String>)
    ensures
        texts(r@) == split(s@, sep),
{
    let mut out: Vec<String> = Vec::new();
    let mut rest: Vec<char> = to_chars(s);
    loop
        invariant
            texts(out@) + split(rest@, sep) == split(s@, sep),
        decreases rest@.len(),
    {
        let ghost before = texts(out@);
        let n: usize = rest.len();
        match find(&rest, sep) {
            Some(i) => {
                proof {
                    rest@.index_of_first_ensures(sep);
                }
                let head = from_chars(&rest, 0, i);
                assert(head@ =~= rest@.take(i as int));
                let tail = rest.split_off(i + 1);
                assert(tail@ =~= (rest@ + tail@).skip(i + 1));
                out.push(head);
                assert(texts(out@) =~= before.push(head@));
                assert(before.push(head@) + split(tail@, sep) =~= before + (seq![head@] + split(tail@, sep)));
                rest = tail;
            },
            None => {
                let last = from_chars(&rest, 0, rest.len());
                assert(last@ =~= rest@);
                out.push(last);
                assert(texts(out@) =~= before + seq![rest@]);
                return out;
            },
        }
    }
}


/// A line without the carriage return at its end.
pub open spec fn without_return(s: Seq<char>) -> Seq<char> {
    if s.len() > 0 && s.last() == '\r' {
        s.drop_last()
    } else {
        s
    }
}

/// The lines of a text: the pieces between line feeds, the last one only if it
/// is not empty, each line that a line feed ends without a carriage return
/// before it.
pub open spec fn lines(s: Seq<char>) -> Seq<Seq<char>>
    decreases s.len(),
    via lines_shrinks
{
    match s.index_of_first('\n') {
        Some(i) => seq![without_return(s.take(i))] + lines(s.skip(i + 1)),
        None => if s.len() == 0 {
            seq![]
        } else {
            seq![s]
        },
    }
}

#[via_fn]
proof fn lines_shrinks(s: Seq<char>) {
    s.index_of_first_ensures('\n');
}

/// Splits a text into lines.
pub fn split_lines(s: &str) -> (r: Vec<String>)
    ensures
        texts(r@) == lines(s@),
{
    let mut out: Vec<String> = Vec::new();
    let mut rest: Vec<char> = to_chars(s);
    loop
        invariant
            texts(out@) + lines(rest@) == lines(s@),
        decreases rest@.len(),
    {
        let ghost before = texts(out@);
        let n: usize = rest.len();
        match find(&rest, '\n') {
            Some(i) => {
                proof {
                    rest@.index_of_first_ensures('\n');
                }
                let end: usize = if i > 0 && rest[i - 1] == '\r' {
                    i - 1
                } else {
                    i
                };
                let head = from_chars(&rest, 0, end);
                assert(i > 0 ==> rest@.take(i as int).drop_last() =~= rest@.take(i - 1));
                assert(head@ =~= without_return(rest@.take(i as int)));
                let tail = rest.split_off(i + 1);
                assert(tail@ =~= (rest@ + tail@).skip(i + 1));
                out.push(head);
                assert(texts(out@) =~= before.push(head@));
                assert(before.push(head@) + lines(tail@) =~= before + (seq![head@] + lines(tail@)));
                rest = tail;
            },
            None => {
                if rest.len() > 0 {
                    let last = from_chars(&rest, 0, rest.len());
                    assert(last@ =~= rest@);
                    out.push(last);
                    assert(texts(out@) =~= before + seq![rest@]);
                } else {
                    assert(before + lines(rest@) =~= before);
                }
                return out;
            },
        }
    }
}

/// Texts with a separator between them.
pub open spec fn join(parts: Seq<Seq<char>>, sep: Seq<char>) -> Seq<char>
    decreases parts.len(),
{
    if parts.len() == 0 {
        seq![]
    } else if parts.len() == 1 {
        parts[0]
    } else {
        join(parts.drop_last(), sep) + sep + parts.last()
    }
}

/// Writes texts with a separator between them.
pub fn join_texts(parts: &Vec<String>, sep: &str) -> (r: String)
    ensures
        r@ == join(texts(parts@), sep@),
{
    let ghost all = texts(parts@);
    let mut out: String = String::new();
    let mut i: usize = 0;
    while i < parts.len()
        invariant
            i <= parts@.len(),
            all == texts(parts@),
            out@ == join(all.take(i as int), sep@),
        decreases parts@.len() - i,
    {
        assert(all.take(i + 1).drop_last() =~= all.take(i as int));
        assert(all.take(i + 1).last() == parts@[i as int]@);
        if i > 0 {
            out.append(sep);
        }
        out.append(parts[i].as_str());
        assert(i == 0 ==> out@ =~= parts@[0]@);
        i = i + 1;
    }
    assert(all.take(i as int) =~= all);
    out
}

// ── Decimal notation ────────────────────────────────────────────────────────

/// Whether a character is an ASCII digit.
pub open spec fn is_digit(c: char) -> bool {
    '0' <= c && c <= '9'
}

/// The value of an ASCII digit.
pub open spec fn digit_value(c: char) -> nat {
    (c as u32 - '0' as u32) as nat
}

/// The ASCII digit of a value below ten.
pub open spec fn digit_char(d: nat) -> char {
    ('0' as u8 + d) as u8 as char
}

/// The number that a run of digits denotes.
pub open spec fn digits_value(s: Seq<char>) -> nat
    decreases s.len(),
{
    if s.len() == 0 {
        0
    } else {
        digits_value(s.drop_last()) * 10 + digit_value(s.last())
    }
}

/// Whether a text is a run of one or more digits.
pub open spec fn all_digits(s: Seq<char>) -> bool {
    s.len() > 0 && forall|i: int| 0 <= i < s.len() ==> is_digit(#[trigger] s[i])
}

/// The decimal notation of a number.
pub open spec fn decimal(n: nat) -> Seq<char>
    decreases n,
{
    if n < 10 {
        seq![digit_char(n)]
    } else {
        decimal(n / 10).push(digit_char(n % 10))
    }
}

/// The decimal notation of an integer.
pub open spec fn signed_text(n: int) -> Seq<char> {
    if n < 0 {
        "-"@ + decimal((-n) as nat)
    } else {
        decimal(n as nat)
    }
}

/// Writes a number in decimal notation.
pub fn decimal_text(n: u64) -> (r: String)
    ensures
        r@ == decimal(n as nat),
    decreases n,
{
    if n < 10 {
        let mut out: String = String::new();
        out.push((48u8 + n as u8) as char);
        assert(out@ =~= decimal(n as nat));
        out
    } else {
        let mut out: String = decimal_text(n / 10);
        out.push((48u8 + (n % 10) as u8) as char);
        out
    }
}

/// A longer run of digits denotes no smaller number.
proof fn digits_value_grows(s: Seq<char>, n: int)
    requires
        0 <= n <= s.len(),
        forall|i: int| 0 <= i < s.len() ==> is_digit(#[trigger] s[i]),
    ensures
        digits_value(s.take(n)) <= digits_value(s),
    decreases s.len() - n,
{
    if n == s.len() {
        assert(s.take(n) =~= s);
    } else {
        digits_value_grows(s, n + 1);
        assert(s.take(n + 1).drop_last() =~= s.take(n));
    }
}

/// The number that a run of digits denotes, if it is one and is at most `max`.
pub open spec fn bounded(s: Seq<char>, max: nat) -> Option<nat> {
    if all_digits(s) && digits_value(s) <= max {
        Some(digits_value(s))
    } else {
        None
    }
}

/// Reads a run of digits.
pub fn read_digits(v: &Vec<char>, from: usize, max: u64) -> (r: Option<u64>)
    requires
        from <= v@.len(),
    ensures
        bounded(v@.skip(from as int), max as nat) == (match r {
            Some(n) => Some(n as nat),
            None => None,
        }),
{
    let ghost s = v@.skip(from as int);
    let mut n: u64 = 0;
    let mut i: usize = from;
    if from == v.len() {
        return None;
    }
    while i < v.len()
        invariant
            from <= i <= v@.len(),
            s == v@.skip(from as int),
            forall|k: int| 0 <= k < i - from ==> is_digit(#[trigger] s[k]),
            n == digits_value(s.take(i - from)),
            n <= max,
        decreases v@.len() - i,
    {
        let c = v[i];
        assert(s[i - from] == c);
        if !('0' <= c && c <= '9') {
            return None;
        }
        let d: u64 = (c as u32 - 48) as u64;
        assert(s.take(i - from + 1).drop_last() =~= s.take(i - from));
        assert(digits_value(s.take(i - from + 1)) == n * 10 + d);
        if n > max / 10 || (n == max / 10 && d > max % 10) {
            proof {
                assert(n * 10 + d > max);
                if all_digits(s) {
                    digits_value_grows(s, i - from + 1);
                }
            }
            return None;
        }
        assert(n * 10 + d <= max);
        n = n * 10 + d;
        i = i + 1;
    }
    assert(s.take(s.len() as int) =~= s);
    Some(n)
}

/// What Rust's parser of an unsigned integer of at most `max` makes of a text:
/// digits, with a plus sign before them at most.
pub open spec fn unsigned_value(s: Seq<char>, max: nat) -> Option<nat> {
    if s.len() > 0 && s[0] == '+' {
        bounded(s.skip(1), max)
    } else {
        bounded(s, max)
    }
}

/// Reads an unsigned integer.
pub fn parse_unsigned(s: &str, max: u64) -> (r: Option<u64>)
    ensures
        unsigned_value(s@, max as nat) == (match r {
            Some(n) => Some(n as nat),
            None => None,
        }),
        r matches Some(n) ==> n <= max,
{
    let v = to_chars(s);
    if v.len() > 0 && v[0] == '+' {
        read_digits(&v, 1, max)
    } else {
        assert(s@.skip(0) =~= s@);
        read_digits(&v, 0, max)
    }
}

/// What Rust's parser of an `i64` makes of a text: digits with one sign before
/// them at most, within the type's range.
pub open spec fn signed_value(s: Seq<char>) -> Option<int> {
    if s.len() > 0 && s[0] == '-' {
        match bounded(s.skip(1), 0x8000_0000_0000_0000) {
            Some(n) => Some(-(n as int)),
            None => None,
        }
    } else {
        match unsigned_value(s, 0x7fff_ffff_ffff_ffff) {
            Some(n) => Some(n as int),
            None => None,
        }
    }
}

/// Reads an `i64`.
pub fn parse_signed(s: &str) -> (r: Option<i64>)
    ensures
        signed_value(s@) == (match r {
            Some(n) => Some(n as int),
            None => None,
        }),
{
    let v = to_chars(s);
    if v.len() > 0 && v[0] == '-' {
        match read_digits(&v, 1, 0x8000_0000_0000_0000) {
            Some(n) => if n == 0x8000_0000_0000_0000 {
                Some(i64::MIN)
            } else {
                Some(-(n as i64))
            },
            None => None,
        }
    } else {
        match parse_unsigned(s, 0x7fff_ffff_ffff_ffff) {
            Some(n) => Some(n as i64),
            None => None,
        }
    }
}

// ── Laws ────────────────────────────────────────────────────────────────────

/// The decimal notation of a number is a run of digits that denotes it.
pub proof fn decimal_reads_back(n: nat)
    ensures
        all_digits(decimal(n)),
        digits_value(decimal(n)) == n,
    decreases n,
{
    let s = decimal(n);
    if n < 10 {
        assert(s.drop_last() =~= seq![]);
        assert(digits_value(seq![]) == 0);
    } else {
        let init = decimal(n / 10);
        decimal_reads_back(n / 10);
        assert(s.drop_last() =~= init);
        assert forall|i: int| 0 <= i < s.len() implies is_digit(#[trigger] s[i]) by {
            if i < init.len() {
                assert(s[i] == init[i]);
            }
        }
    }
}

/// The notation of an integer of 64 bits is read as that integer.
pub proof fn integer_reads_back(n: int)
    requires
        -0x8000_0000_0000_0000 <= n <= 0x7fff_ffff_ffff_ffff,
    ensures
        signed_value(signed_text(n)) == Some(n),
{
    reveal_strlit("-");
    if n < 0 {
        decimal_reads_back((-n) as nat);
        assert(signed_text(n).skip(1) =~= decimal((-n) as nat));
    } else {
        decimal_reads_back(n as nat);
        assert(is_digit(decimal(n as nat)[0]));
    }
}

/// Whether a text is white space alone.
pub open spec fn all_white(s: Seq<char>) -> bool {
    forall|i: int| 0 <= i < s.len() ==> is_white(#[trigger] s[i])
}

/// White space around a text does not matter once it is trimmed.
pub proof fn padding_is_trimmed(front: Seq<char>, s: Seq<char>, back: Seq<char>)
    requires
        all_white(front),
        all_white(back),
    ensures
        trimmed(front + s + back) == trimmed(s),
{
    front_goes(front, s + back);
    assert(front + s + back =~= front + (s + back));
    back_stays(s, back);
    if trimmed_front(s).len() > 0 {
        back_goes(trimmed_front(s), back);
    }
}

proof fn front_goes(front: Seq<char>, s: Seq<char>)
    requires
        all_white(front),
    ensures
        trimmed_front(front + s) == trimmed_front(s),
    decreases front.len(),
{
    if front.len() > 0 {
        assert((front + s).skip(1) =~= front.skip(1) + s);
        assert((front + s)[0] == front[0]);
        front_goes(front.skip(1), s);
    } else {
        assert(front + s =~= s);
    }
}

proof fn back_stays(s: Seq<char>, back: Seq<char>)
    requires
        all_white(back),
    ensures
        trimmed_front(s + back) == if trimmed_front(s).len() == 0 {
            seq![]
        } else {
            trimmed_front(s) + back
        },
    decreases s.len(),
{
    if s.len() == 0 {
        front_goes(back, seq![]);
        assert(s + back =~= back + seq![]);
    } else if is_white(s[0]) {
        assert((s + back).skip(1) =~= s.skip(1) + back);
        assert((s + back)[0] == s[0]);
        back_stays(s.skip(1), back);
    } else {
        assert((s + back)[0] == s[0]);
    }
}

proof fn back_goes(s: Seq<char>, back: Seq<char>)
    requires
        all_white(back),
    ensures
        trimmed_back(s + back) == trimmed_back(s),
    decreases back.len(),
{
    if back.len() > 0 {
        assert((s + back).drop_last() =~= s + back.drop_last());
        assert((s + back).last() == back.last());
        back_goes(s, back.drop_last());
    } else {
        assert(s + back =~= s);
    }
}

/// Trimming and making capitals small can be done in either order.
pub proof fn trimming_keeps_the_case(s: Seq<char>)
    ensures
        lowered(trimmed(s)) == trimmed(lowered(s)),
{
    small_front(s);
    small_back(trimmed_front(s));
}

proof fn small_front(s: Seq<char>)
    ensures
        lowered(trimmed_front(s)) == trimmed_front(lowered(s)),
    decreases s.len(),
{
    if s.len() > 0 {
        assert(is_white(lower_char(s[0])) == is_white(s[0]));
        if is_white(s[0]) {
            assert(lowered(s).skip(1) =~= lowered(s.skip(1)));
            small_front(s.skip(1));
        }
    } else {
        assert(lowered(s) =~= s);
    }
}

proof fn small_back(s: Seq<char>)
    ensures
        lowered(trimmed_back(s)) == trimmed_back(lowered(s)),
    decreases s.len(),
{
    if s.len() > 0 {
        assert(is_white(lower_char(s.last())) == is_white(s.last()));
        if is_white(s.last()) {
            assert(lowered(s).drop_last() =~= lowered(s.drop_last()));
            small_back(s.drop_last());
        }
    } else {
        assert(lowered(s) =~= s);
    }
}

/// The last place of a character is where nothing behind it is that character.
pub proof fn last_place(a: Seq<char>, c: char, b: Seq<char>)
    requires
        !b.contains(c),
    ensures
        (a.push(c) + b).index_of_last(c) == Some(a.len() as int),
{
    let s = a.push(c) + b;
    s.index_of_last_ensures(c);
    assert(s[a.len() as int] == c);
    assert(s.contains(c));
    let i = s.index_of_last(c)->0;
    if i > a.len() {
        assert(s[i] == b[i - a.len() - 1]);
    }
}

/// Whether a text is made of a part with something before and behind it.
pub open spec fn stands_in(all: Seq<char>, front: Seq<char>, part: Seq<char>, back: Seq<char>) -> bool {
    all == front + part + back
}

} // verus!
