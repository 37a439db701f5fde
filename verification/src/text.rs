//! Text as sequences of characters: searching, trimming, splitting, replacing,
//! and numbers in digits.
use vstd::prelude::*;
use vstd::string::StrSliceExecFns;
use vstd::string::StringExecFns;

verus! {

/// `pat` stands in `s` from position `i` on.
pub open spec fn occurs_at(s: Seq<char>, pat: Seq<char>, i: int) -> bool {
    0 <= i && i + pat.len() <= s.len() && s.subrange(i, i + pat.len()) == pat
}

/// `pat` stands somewhere in `s`.
pub open spec fn has(s: Seq<char>, pat: Seq<char>) -> bool {
    exists|i: int| occurs_at(s, pat, i)
}

/// `s` begins with `pat`.
pub open spec fn begins(s: Seq<char>, pat: Seq<char>) -> bool {
    occurs_at(s, pat, 0)
}

/// `s` ends with `pat`.
pub open spec fn ends(s: Seq<char>, pat: Seq<char>) -> bool {
    occurs_at(s, pat, s.len() - pat.len())
}

/// The first position from `i` on at which `pat` stands in `s`.
pub open spec fn find_from(s: Seq<char>, pat: Seq<char>, i: int) -> Option<int>
    decreases s.len() - i + 1,
{
    if i < 0 || i + pat.len() > s.len() {
        None
    } else if occurs_at(s, pat, i) {
        Some(i)
    } else {
        find_from(s, pat, i + 1)
    }
}

/// What stands in `s` before the first occurrence of `pat`; all of `s` where
/// there is none.
pub open spec fn before(s: Seq<char>, pat: Seq<char>) -> Seq<char> {
    match find_from(s, pat, 0) {
        Some(i) => s.take(i),
        None => s,
    }
}

/// What stands in `s` after the first occurrence of `pat`, if there is one.
pub open spec fn after(s: Seq<char>, pat: Seq<char>) -> Option<Seq<char>> {
    match find_from(s, pat, 0) {
        Some(i) => Some(s.skip(i + pat.len())),
        None => None,
    }
}

/// `s` with every occurrence of `pat` replaced by `to`, from the left and
/// without overlaps. An empty `pat` stands before, between and after all
/// characters.
pub open spec fn replaced(s: Seq<char>, pat: Seq<char>, to: Seq<char>) -> Seq<char> {
    if pat.len() == 0 {
        to + replaced_from(s, 0, pat, to)
    } else {
        replaced_from(s, 0, pat, to)
    }
}

/// The part of `replaced` that comes from position `i` of `s` on.
pub open spec fn replaced_from(s: Seq<char>, i: int, pat: Seq<char>, to: Seq<char>) -> Seq<char>
    decreases s.len() - i,
{
    if i < 0 || i >= s.len() {
        Seq::empty()
    } else if pat.len() == 0 {
        seq![s[i]] + to + replaced_from(s, i + 1, pat, to)
    } else if occurs_at(s, pat, i) {
        to + replaced_from(s, i + pat.len(), pat, to)
    } else {
        seq![s[i]] + replaced_from(s, i + 1, pat, to)
    }
}

/// The characters with Unicode's property White_Space.
pub open spec fn is_white(c: char) -> bool {
    ||| 0x9 <= c as int <= 0xd
    ||| c as int == 0x20
    ||| c as int == 0x85
    ||| c as int == 0xa0
    ||| c as int == 0x1680
    ||| 0x2000 <= c as int <= 0x200a
    ||| c as int == 0x2028
    ||| c as int == 0x2029
    ||| c as int == 0x202f
    ||| c as int == 0x205f
    ||| c as int == 0x3000
}

/// `s` without the white space that it begins with.
pub open spec fn trimmed_start(s: Seq<char>) -> Seq<char>
    decreases s.len(),
{
    if s.len() > 0 && is_white(s[0]) {
        trimmed_start(s.drop_first())
    } else {
        s
    }
}

/// `s` without the white space that it ends with.
pub open spec fn trimmed_end(s: Seq<char>) -> Seq<char>
    decreases s.len(),
{
    if s.len() > 0 && is_white(s.last()) {
        trimmed_end(s.drop_last())
    } else {
        s
    }
}

/// `s` without the white space at both its ends.
pub open spec fn trimmed(s: Seq<char>) -> Seq<char> {
    trimmed_end(trimmed_start(s))
}

/// `s` is empty or all white space.
pub open spec fn is_blank(s: Seq<char>) -> bool {
    forall|i: int| 0 <= i < s.len() ==> is_white(#[trigger] s[i])
}

/// `s` without the `c` that it ends with.
pub open spec fn without_trailing(s: Seq<char>, c: char) -> Seq<char>
    decreases s.len(),
{
    if s.len() > 0 && s.last() == c {
        without_trailing(s.drop_last(), c)
    } else {
        s
    }
}

/// `s` without the `c` that it begins with.
pub open spec fn without_leading(s: Seq<char>, c: char) -> Seq<char>
    decreases s.len(),
{
    if s.len() > 0 && s[0] == c {
        without_leading(s.drop_first(), c)
    } else {
        s
    }
}

/// The end of the run of characters other than white space that starts at `i`.
pub open spec fn word_end(s: Seq<char>, i: int) -> int
    decreases s.len() - i,
{
    if 0 <= i < s.len() && !is_white(s[i]) {
        word_end(s, i + 1)
    } else {
        i
    }
}

/// The words of `s` from position `i` on: the longest runs of characters other
/// than white space.
pub open spec fn words_from(s: Seq<char>, i: int) -> Seq<Seq<char>>
    decreases s.len() - i,
{
    if i < 0 || i >= s.len() {
        Seq::empty()
    } else if is_white(s[i]) {
        words_from(s, i + 1)
    } else {
        proof {
            lemma_word_end(s, i + 1);
        }
        seq![s.subrange(i, word_end(s, i))] + words_from(s, word_end(s, i))
    }
}

/// The words of `s`.
pub open spec fn words(s: Seq<char>) -> Seq<Seq<char>> {
    words_from(s, 0)
}

/// The first position from `i` on at which `s` holds `c`; the length of `s`
/// where there is none.
pub open spec fn char_from(s: Seq<char>, c: char, i: int) -> int
    decreases s.len() - i,
{
    if 0 <= i < s.len() && s[i] != c {
        char_from(s, c, i + 1)
    } else {
        i
    }
}

/// The parts of `s` from position `i` on, between one `c` and the next.
pub open spec fn parts_from(s: Seq<char>, c: char, i: int) -> Seq<Seq<char>>
    decreases s.len() - i + 1,
{
    if i < 0 || i > s.len() {
        Seq::empty()
    } else {
        proof {
            lemma_char_from(s, c, i);
        }
        seq![s.subrange(i, char_from(s, c, i))] + parts_from(s, c, char_from(s, c, i) + 1)
    }
}

/// The parts of `s` before, between and after all `c`.
pub open spec fn parts_of(s: Seq<char>, c: char) -> Seq<Seq<char>> {
    parts_from(s, c, 0)
}

/// What stands in `s` after the last `c`; all of `s` where there is none.
pub open spec fn after_last(s: Seq<char>, c: char) -> Seq<char>
    decreases s.len(),
{
    if s.len() == 0 || s.last() == c {
        Seq::empty()
    } else {
        after_last(s.drop_last(), c).push(s.last())
    }
}

/// One line of `s`, from `i` to its line feed at `e` or to the end of `s`. A
/// carriage return right before the line feed belongs to the line break.
pub open spec fn line_at(s: Seq<char>, i: int, e: int) -> Seq<char> {
    if e < s.len() && i < e && s[e - 1] == '\r' {
        s.subrange(i, e - 1)
    } else {
        s.subrange(i, e)
    }
}

/// The lines of `s` from position `i` on.
pub open spec fn lines_from(s: Seq<char>, i: int) -> Seq<Seq<char>>
    decreases s.len() - i + 1,
{
    if i < 0 || i >= s.len() {
        Seq::empty()
    } else {
        proof {
            lemma_char_from(s, '\n', i);
        }
        seq![line_at(s, i, char_from(s, '\n', i))] + lines_from(s, char_from(s, '\n', i) + 1)
    }
}

/// The lines of `s`.
pub open spec fn lines_of(s: Seq<char>) -> Seq<Seq<char>> {
    lines_from(s, 0)
}

/// The views of a sequence of strings.
pub open spec fn strs(v: Seq<String>) -> Seq<Seq<char>> {
    Seq::new(v.len(), |i: int| v[i]@)
}

/// The view of an optional string.
pub open spec fn opt(s: Option<String>) -> Option<Seq<char>> {
    match s {
        Some(t) => Some(t@),
        None => None,
    }
}

/// The view of an optional string slice.
pub open spec fn opt_str(s: Option<&str>) -> Option<Seq<char>> {
    match s {
        Some(t) => Some(t@),
        None => None,
    }
}

/// The number of bytes that `s` takes in UTF-8.
pub open spec fn byte_len(s: Seq<char>) -> nat {
    vstd::utf8::encode_utf8(s).len()
}

/// The first `n` characters of `s`, or all of it where there are no more.
pub open spec fn first_chars(s: Seq<char>, n: int) -> Seq<char> {
    if s.len() <= n {
        s
    } else {
        s.take(n)
    }
}

/// The letters `A` to `Z` in lower case; any other character as it is.
pub open spec fn ascii_lower(c: char) -> char {
    if 'A' as int <= c as int <= 'Z' as int {
        ((c as int) + 32) as char
    } else {
        c
    }
}

/// `a` and `b` are the same but for the case of the letters `A` to `Z`.
pub open spec fn same_but_case(a: Seq<char>, b: Seq<char>) -> bool {
    a.len() == b.len() && forall|i: int|
        0 <= i < a.len() ==> ascii_lower(#[trigger] a[i]) == ascii_lower(b[i])
}

/// The digit for a number below ten.
pub open spec fn digit(d: nat) -> char {
    if d == 0 {
        '0'
    } else if d == 1 {
        '1'
    } else if d == 2 {
        '2'
    } else if d == 3 {
        '3'
    } else if d == 4 {
        '4'
    } else if d == 5 {
        '5'
    } else if d == 6 {
        '6'
    } else if d == 7 {
        '7'
    } else if d == 8 {
        '8'
    } else {
        '9'
    }
}

/// `n` in decimal digits, without leading zeros.
pub open spec fn dec(n: nat) -> Seq<char>
    decreases n,
{
    if n < 10 {
        seq![digit(n)]
    } else {
        dec(n / 10).push(digit(n % 10))
    }
}

/// `n` in decimal digits, after a minus sign where it is negative.
pub open spec fn signed_dec(n: int) -> Seq<char> {
    if n < 0 {
        seq!['-'] + dec((-n) as nat)
    } else {
        dec(n as nat)
    }
}

/// What `c` counts for as a digit to the base `radix`.
pub open spec fn digit_value(c: char, radix: nat) -> Option<nat> {
    let v: int = if '0' as int <= c as int <= '9' as int {
        c as int - '0' as int
    } else if 'a' as int <= c as int <= 'z' as int {
        c as int - 'a' as int + 10
    } else if 'A' as int <= c as int <= 'Z' as int {
        c as int - 'A' as int + 10
    } else {
        36
    };
    if v < radix {
        Some(v as nat)
    } else {
        None
    }
}

/// The number that a sequence of digits to the base `radix` stands for.
pub open spec fn number(s: Seq<char>, radix: nat) -> Option<nat>
    decreases s.len(),
{
    if s.len() == 0 {
        Some(0)
    } else {
        match (number(s.drop_last(), radix), digit_value(s.last(), radix)) {
            (Some(n), Some(d)) => Some(n * radix + d),
            _ => None,
        }
    }
}

/// The digits of a number that may have a plus sign in front.
pub open spec fn unsigned_digits(s: Seq<char>) -> Seq<char> {
    if s.len() > 0 && s[0] == '+' {
        s.drop_first()
    } else {
        s
    }
}

/// The number up to `max` that `s` is, written in digits to the base `radix`.
pub open spec fn parsed(s: Seq<char>, radix: nat, max: nat) -> Option<nat> {
    if unsigned_digits(s).len() == 0 {
        None
    } else {
        match number(unsigned_digits(s), radix) {
            Some(n) => if n <= max {
                Some(n)
            } else {
                None
            },
            None => None,
        }
    }
}

/// `word_end` does not go back.
pub proof fn lemma_word_end(s: Seq<char>, i: int)
    requires
        0 <= i <= s.len(),
    ensures
        i <= word_end(s, i) <= s.len(),
        forall|j: int| i <= j < word_end(s, i) ==> !is_white(#[trigger] s[j]),
        word_end(s, i) < s.len() ==> is_white(s[word_end(s, i)]),
    decreases s.len() - i,
{
    if i < s.len() && !is_white(s[i]) {
        lemma_word_end(s, i + 1);
    }
}

/// `char_from` gives the first position of the character.
pub proof fn lemma_char_from(s: Seq<char>, c: char, i: int)
    requires
        0 <= i <= s.len(),
    ensures
        i <= char_from(s, c, i) <= s.len(),
        forall|j: int| i <= j < char_from(s, c, i) ==> #[trigger] s[j] != c,
        char_from(s, c, i) < s.len() ==> s[char_from(s, c, i)] == c,
    decreases s.len() - i,
{
    if i < s.len() && s[i] != c {
        lemma_char_from(s, c, i + 1);
    }
}

/// `find_from` gives the first occurrence.
pub proof fn lemma_find_from(s: Seq<char>, pat: Seq<char>, i: int)
    requires
        0 <= i,
    ensures
        find_from(s, pat, i) matches Some(k) ==> i <= k && occurs_at(s, pat, k),
        find_from(s, pat, i) is None ==> forall|j: int| i <= j ==> !occurs_at(s, pat, j),
        find_from(s, pat, i) matches Some(k) ==> forall|j: int| i <= j < k ==> !occurs_at(s, pat, j),
    decreases s.len() - i + 1,
{
    if i + pat.len() <= s.len() && !occurs_at(s, pat, i) {
        lemma_find_from(s, pat, i + 1);
    }
}

/// Once the digits read stand for more than `max`, no further digit brings the
/// number back.
proof fn lemma_number_grows(s: Seq<char>, radix: nat, k: int, max: nat)
    requires
        0 <= k <= s.len(),
        radix >= 1,
        number(s.take(k), radix) is None || number(s.take(k), radix)->0 > max,
    ensures
        number(s, radix) is None || number(s, radix)->0 > max,
    decreases s.len() - k,
{
    if k < s.len() {
        let t = s.take(k + 1);
        assert(t.drop_last() =~= s.take(k));
        if number(t, radix) is Some {
            let n = number(s.take(k), radix)->0;
            assert(n * radix >= n) by (nonlinear_arith)
                requires
                    radix >= 1,
                    n >= 0,
            ;
        }
        lemma_number_grows(s, radix, k + 1, max);
    } else {
        assert(s.take(k) =~= s);
    }
}

/// `a` stands before `b` in the order of code points, as texts are sorted.
pub open spec fn precedes(a: Seq<char>, b: Seq<char>) -> bool
    decreases a.len(),
{
    if b.len() == 0 {
        false
    } else if a.len() == 0 {
        true
    } else if a[0] == b[0] {
        precedes(a.drop_first(), b.drop_first())
    } else {
        (a[0] as int) < (b[0] as int)
    }
}

/// No two texts each stand before the other, and none stands before itself.
pub proof fn lemma_precedes_one_way(a: Seq<char>, b: Seq<char>)
    ensures
        !(precedes(a, b) && precedes(b, a)),
    decreases a.len(),
{
    if a.len() > 0 && b.len() > 0 && a[0] == b[0] {
        lemma_precedes_one_way(a.drop_first(), b.drop_first());
    }
}

/// Of two different texts one stands before the other.
pub proof fn lemma_precedes_total(a: Seq<char>, b: Seq<char>)
    ensures
        a != b ==> precedes(a, b) || precedes(b, a),
    decreases a.len(),
{
    if a.len() > 0 && b.len() > 0 && a[0] == b[0] {
        lemma_precedes_total(a.drop_first(), b.drop_first());
        if a.drop_first() == b.drop_first() {
            assert(a =~= seq![a[0]] + a.drop_first());
            assert(b =~= seq![b[0]] + b.drop_first());
        }
    } else if a.len() == 0 && b.len() == 0 {
        assert(a =~= b);
    }
}

/// The order of texts carries over.
pub proof fn lemma_precedes_carries(a: Seq<char>, b: Seq<char>, c: Seq<char>)
    requires
        precedes(a, b),
        precedes(b, c),
    ensures
        precedes(a, c),
    decreases a.len(),
{
    if a.len() > 0 && b.len() > 0 && c.len() > 0 && a[0] == b[0] && b[0] == c[0] {
        lemma_precedes_carries(a.drop_first(), b.drop_first(), c.drop_first());
    }
}

fn char_less(a: char, b: char) -> (r: bool)
    ensures
        r == ((a as int) < (b as int)),
{
    (a as u32) < (b as u32)
}

/// Whether `a` stands before `b`.
pub fn sorts_before(a: &str, b: &str) -> (r: bool)
    ensures
        r == precedes(a@, b@),
{
    let x: Vec<char> = chars_of(a);
    let y: Vec<char> = chars_of(b);
    let mut i: usize = 0;
    assert(x@.skip(0) =~= a@);
    assert(y@.skip(0) =~= b@);
    while i < x.len() && i < y.len()
        invariant
            i <= x@.len(),
            i <= y@.len(),
            precedes(x@.skip(i as int), y@.skip(i as int)) == precedes(a@, b@),
        decreases x@.len() - i,
    {
        assert(x@.skip(i as int).drop_first() =~= x@.skip(i + 1));
        assert(y@.skip(i as int).drop_first() =~= y@.skip(i + 1));
        if x[i] != y[i] {
            return char_less(x[i], y[i]);
        }
        i = i + 1;
    }
    i < y.len()
}

/// `String::push`: appends one character at the end.
pub assume_specification[ String::push ](s: &mut String, c: char)
    ensures
        final(s)@ == old(s)@.push(c),
;

/// What `str::to_lowercase` gives for a text.
pub uninterp spec fn lowercase(s: Seq<char>) -> Seq<char>;

/// What `str::to_uppercase` gives for a text.
pub uninterp spec fn uppercase(s: Seq<char>) -> Seq<char>;

/// `str::to_lowercase`: the lower case by Unicode's rules. Its result is named,
/// not described.
#[verifier::external_body]
pub(crate) fn to_lowercase(s: &str) -> (r: String)
    ensures
        r@ == lowercase(s@),
{
    s.to_lowercase()
}

/// `str::to_uppercase`: the upper case by Unicode's rules. Its result is named,
/// not described.
#[verifier::external_body]
pub(crate) fn to_uppercase(s: &str) -> (r: String)
    ensures
        r@ == uppercase(s@),
{
    s.to_uppercase()
}

/// The characters of `s`.
pub fn chars_of(s: &str) -> (v: Vec<char>)
    ensures
        v@ == s@,
{
    let mut v: Vec<char> = Vec::new();
    for c in it: s.chars()
        invariant
            v@ == s@.take(it.index()),
            it.seq() == s@,
    {
        assert(s@.take(it.index() + 1) =~= s@.take(it.index()).push(s@[it.index()]));
        v.push(c);
    }
    assert(s@.take(s@.len() as int) =~= s@);
    v
}

/// The string with the characters of `v` from `from` up to `to`.
pub fn string_of(v: &Vec<char>, from: usize, to: usize) -> (s: String)
    requires
        from <= to <= v@.len(),
    ensures
        s@ == v@.subrange(from as int, to as int),
{
    let mut s: String = String::new();
    let mut i: usize = from;
    while i < to
        invariant
            from <= i <= to <= v@.len(),
            s@ == v@.subrange(from as int, i as int),
        decreases to - i,
    {
        assert(v@.subrange(from as int, i + 1) =~= v@.subrange(from as int, i as int).push(v@[i as int]));
        s.push(v[i]);
        i = i + 1;
    }
    s
}

/// Whether `a` and `b` hold the same characters.
pub fn same(a: &str, b: &str) -> (r: bool)
    ensures
        r == (a@ == b@),
{
    let x: String = a.to_owned();
    let y: String = b.to_owned();
    x == y
}

/// Whether two optional texts are the same.
pub fn same_opt(a: &Option<String>, b: &Option<String>) -> (r: bool)
    ensures
        r == (opt(*a) == opt(*b)),
{
    match (a, b) {
        (Some(x), Some(y)) => same(x.as_str(), y.as_str()),
        (None, None) => true,
        _ => false,
    }
}

/// A copy of `s`.
pub fn copy_opt(s: &Option<String>) -> (r: Option<String>)
    ensures
        opt(r) == opt(*s),
        r is Some == s is Some,
{
    match s {
        Some(t) => Some(t.clone()),
        None => None,
    }
}

/// A copy of a list of strings.
pub fn copy_list(v: &Vec<String>) -> (r: Vec<String>)
    ensures
        strs(r@) == strs(v@),
{
    let mut r: Vec<String> = Vec::new();
    let mut i: usize = 0;
    while i < v.len()
        invariant
            i <= v@.len(),
            r@.len() == i,
            forall|j: int| 0 <= j < i ==> (#[trigger] r@[j])@ == v@[j]@,
        decreases v@.len() - i,
    {
        r.push(v[i].clone());
        i = i + 1;
    }
    assert(strs(r@) =~= strs(v@));
    r
}

/// Whether the list holds `s`.
pub fn list_has(v: &Vec<String>, s: &str) -> (r: bool)
    ensures
        r == strs(v@).contains(s@),
{
    let mut i: usize = 0;
    while i < v.len()
        invariant
            i <= v@.len(),
            forall|j: int| 0 <= j < i ==> (#[trigger] v@[j])@ != s@,
        decreases v@.len() - i,
    {
        if same(v[i].as_str(), s) {
            assert(strs(v@)[i as int] == s@);
            return true;
        }
        i = i + 1;
    }
    assert forall|j: int| 0 <= j < strs(v@).len() implies strs(v@)[j] != s@ by {
        assert(v@[j]@ != s@);
    }
    false
}

fn occurs_here(s: &Vec<char>, pat: &Vec<char>, i: usize) -> (r: bool)
    requires
        i <= s@.len(),
    ensures
        r == occurs_at(s@, pat@, i as int),
{
    if pat.len() > s.len() - i {
        return false;
    }
    let n: usize = s.len();
    let mut k: usize = 0;
    while k < pat.len()
        invariant
            n == s@.len(),
            i + pat@.len() <= n,
            k <= pat@.len(),
            forall|j: int| 0 <= j < k ==> s@[i + j] == #[trigger] pat@[j],
        decreases pat@.len() - k,
    {
        if s[i + k] != pat[k] {
            assert(s@.subrange(i as int, i + pat@.len())[k as int] != pat@[k as int]);
            return false;
        }
        k = k + 1;
    }
    assert(s@.subrange(i as int, i + pat@.len()) =~= pat@);
    true
}

fn find_here(s: &Vec<char>, pat: &Vec<char>) -> (r: Option<usize>)
    ensures
        match r {
            Some(k) => find_from(s@, pat@, 0) == Some(k as int),
            None => find_from(s@, pat@, 0) is None,
        },
        r matches Some(k) ==> k + pat@.len() <= s@.len(),
{
    let mut i: usize = 0;
    while i <= s.len() && pat.len() <= s.len() - i
        invariant
            i <= s@.len() + 1,
            find_from(s@, pat@, i as int) == find_from(s@, pat@, 0),
        decreases s@.len() + 1 - i,
    {
        if occurs_here(s, pat, i) {
            return Some(i);
        }
        if i == s.len() {
            assert(find_from(s@, pat@, i + 1) is None);
            return None;
        }
        i = i + 1;
    }
    None
}

/// Whether `pat` stands somewhere in `s`.
pub fn contains(s: &str, pat: &str) -> (r: bool)
    ensures
        r == has(s@, pat@),
{
    proof {
        lemma_find_from(s@, pat@, 0);
        assert(forall|i: int| occurs_at(s@, pat@, i) ==> 0 <= i);
    }
    find_here(&chars_of(s), &chars_of(pat)).is_some()
}

/// Whether `s` begins with `pat`.
pub fn starts_with(s: &str, pat: &str) -> (r: bool)
    ensures
        r == begins(s@, pat@),
{
    occurs_here(&chars_of(s), &chars_of(pat), 0)
}

/// Whether `s` ends with `pat`.
pub fn ends_with(s: &str, pat: &str) -> (r: bool)
    ensures
        r == ends(s@, pat@),
{
    let cs: Vec<char> = chars_of(s);
    let ps: Vec<char> = chars_of(pat);
    if ps.len() > cs.len() {
        return false;
    }
    occurs_here(&cs, &ps, cs.len() - ps.len())
}

/// What stands in `s` before the first `pat`.
pub fn text_before(s: &str, pat: &str) -> (r: String)
    ensures
        r@ == before(s@, pat@),
{
    let cs: Vec<char> = chars_of(s);
    match find_here(&cs, &chars_of(pat)) {
        Some(i) => {
            assert(cs@.subrange(0, i as int) =~= s@.take(i as int));
            string_of(&cs, 0, i)
        },
        None => s.to_owned(),
    }
}

/// What stands in `s` after the first `pat`.
pub fn text_after(s: &str, pat: &str) -> (r: Option<String>)
    ensures
        opt(r) == after(s@, pat@),
{
    let cs: Vec<char> = chars_of(s);
    let ps: Vec<char> = chars_of(pat);
    let n: usize = cs.len();
    match find_here(&cs, &ps) {
        Some(i) => {
            assert(i + ps@.len() <= n);
            assert(cs@.subrange(i + ps@.len(), cs@.len() as int) =~= s@.skip(i + ps@.len()));
            Some(string_of(&cs, i + ps.len(), cs.len()))
        },
        None => None,
    }
}

/// `a` followed by `b`.
pub fn concat(a: &str, b: &str) -> (r: String)
    ensures
        r@ == a@ + b@,
{
    let mut s: String = a.to_owned();
    s.append(b);
    s
}

/// Any text that a list does not hold.
pub open spec fn not_in(l: Seq<Seq<char>>) -> spec_fn(Seq<char>) -> bool {
    |k: Seq<char>| !l.contains(k)
}

/// The texts of `v` that `drop` does not hold.
pub fn others(v: &Vec<String>, drop: &Vec<String>) -> (r: Vec<String>)
    ensures
        strs(r@) == strs(v@).filter(not_in(strs(drop@))),
{
    let ghost all: Seq<Seq<char>> = strs(v@);
    let ghost keep = not_in(strs(drop@));
    let mut r: Vec<String> = Vec::new();
    let mut i: usize = 0;
    assert(strs(r@) =~= all.take(0).filter(keep)) by {
        reveal(Seq::filter);
    }
    while i < v.len()
        invariant
            i <= v@.len(),
            all == strs(v@),
            keep == not_in(strs(drop@)),
            strs(r@) == all.take(i as int).filter(keep),
        decreases v@.len() - i,
    {
        proof {
            reveal(Seq::filter);
            assert(all.take(i + 1).drop_last() =~= all.take(i as int));
            assert(all.take(i + 1).last() == v@[i as int]@);
        }
        if !list_has(drop, v[i].as_str()) {
            let ghost so_far: Seq<String> = r@;
            r.push(v[i].clone());
            assert(strs(r@) =~= strs(so_far).push(v@[i as int]@));
        }
        i = i + 1;
    }
    assert(all.take(i as int) =~= all);
    r
}

/// `s` with every `pat` replaced by `to`.
pub fn replace(s: &str, pat: &str, to: &str) -> (r: String)
    ensures
        r@ == replaced(s@, pat@, to@),
{
    let cs: Vec<char> = chars_of(s);
    let ps: Vec<char> = chars_of(pat);
    let mut out: String = String::new();
    if ps.len() == 0 {
        out.append(to);
    }
    let ghost front: Seq<char> = out@;
    let mut i: usize = 0;
    assert(front + replaced_from(s@, 0, pat@, to@) =~= replaced(s@, pat@, to@));
    while i < cs.len()
        invariant
            i <= cs@.len(),
            cs@ == s@,
            ps@ == pat@,
            out@ + replaced_from(s@, i as int, pat@, to@) == replaced(s@, pat@, to@),
        decreases cs@.len() - i,
    {
        let ghost was: Seq<char> = out@;
        let ghost rest: Seq<char> = replaced_from(s@, i as int, pat@, to@);
        if ps.len() == 0 {
            out.push(cs[i]);
            out.append(to);
            i = i + 1;
            proof {
                let r2 = replaced_from(s@, i as int, pat@, to@);
                assert(rest == seq![s@[i - 1]] + to@ + r2);
                assert(out@ + r2 =~= was + rest);
            }
        } else if occurs_here(&cs, &ps, i) {
            out.append(to);
            i = i + ps.len();
            proof {
                let r2 = replaced_from(s@, i as int, pat@, to@);
                assert(rest == to@ + r2);
                assert(out@ + r2 =~= was + rest);
            }
        } else {
            out.push(cs[i]);
            i = i + 1;
            proof {
                let r2 = replaced_from(s@, i as int, pat@, to@);
                assert(rest == seq![s@[i - 1]] + r2);
                assert(out@ + r2 =~= was + rest);
            }
        }
    }
    assert(out@ + Seq::<char>::empty() =~= out@);
    out
}

/// Whether `c` is white space.
pub fn is_whitespace(c: char) -> (r: bool)
    ensures
        r == is_white(c),
{
    let n: u32 = c as u32;
    (0x9 <= n && n <= 0xd) || n == 0x20 || n == 0x85 || n == 0xa0 || n == 0x1680 || (0x2000 <= n && n
        <= 0x200a) || n == 0x2028 || n == 0x2029 || n == 0x202f || n == 0x205f || n == 0x3000
}

/// `s` without the white space at both its ends.
pub fn trim(s: &str) -> (r: String)
    ensures
        r@ == trimmed(s@),
{
    let cs: Vec<char> = chars_of(s);
    let mut i: usize = 0;
    assert(cs@.subrange(0, cs@.len() as int) =~= s@);
    while i < cs.len() && is_whitespace(cs[i])
        invariant
            i <= cs@.len(),
            trimmed_start(cs@.subrange(i as int, cs@.len() as int)) == trimmed_start(s@),
        decreases cs@.len() - i,
    {
        assert(cs@.subrange(i as int, cs@.len() as int).drop_first() =~= cs@.subrange(
            i + 1,
            cs@.len() as int,
        ));
        i = i + 1;
    }
    let ghost t: Seq<char> = trimmed_start(s@);
    assert(t == cs@.subrange(i as int, cs@.len() as int));
    let mut e: usize = cs.len();
    while i < e && is_whitespace(cs[e - 1])
        invariant
            i <= e <= cs@.len(),
            trimmed_end(cs@.subrange(i as int, e as int)) == trimmed_end(t),
        decreases e,
    {
        assert(cs@.subrange(i as int, e as int).drop_last() =~= cs@.subrange(i as int, e - 1));
        e = e - 1;
    }
    string_of(&cs, i, e)
}

/// A blank text is one of which nothing is left after trimming.
pub proof fn lemma_blank(s: Seq<char>)
    ensures
        (trimmed(s).len() == 0) == is_blank(s),
{
    lemma_trimmed_start(s);
    lemma_trimmed_end(trimmed_start(s));
    let t = trimmed_start(s);
    if t.len() > 0 {
        assert(!is_white(t[0]));
        assert(t[0] == s[s.len() - t.len()]);
        if trimmed(s).len() == 0 {
            assert(is_white(t[0]));
        }
    }
}

/// What is left after trimming the front is the rest of the text, and what went
/// is white space.
pub proof fn lemma_trimmed_start(s: Seq<char>)
    ensures
        trimmed_start(s).len() <= s.len(),
        trimmed_start(s) == s.skip(s.len() - trimmed_start(s).len()),
        forall|i: int| 0 <= i < s.len() - trimmed_start(s).len() ==> is_white(#[trigger] s[i]),
        trimmed_start(s).len() > 0 ==> !is_white(trimmed_start(s)[0]),
    decreases s.len(),
{
    if s.len() > 0 && is_white(s[0]) {
        lemma_trimmed_start(s.drop_first());
        assert forall|i: int| 0 <= i < s.len() - trimmed_start(s).len() implies is_white(#[trigger] s[i]) by {
            if i > 0 {
                assert(s.drop_first()[i - 1] == s[i]);
            }
        }
        assert(trimmed_start(s) =~= s.skip(s.len() - trimmed_start(s).len()));
    } else {
        assert(s.skip(0) =~= s);
    }
}

/// What is left after trimming the end is the front of the text, and what went
/// is white space.
pub proof fn lemma_trimmed_end(s: Seq<char>)
    ensures
        trimmed_end(s).len() <= s.len(),
        trimmed_end(s) == s.take(trimmed_end(s).len() as int),
        forall|i: int| trimmed_end(s).len() <= i < s.len() ==> is_white(#[trigger] s[i]),
        trimmed_end(s).len() > 0 ==> !is_white(trimmed_end(s).last()),
    decreases s.len(),
{
    if s.len() > 0 && is_white(s.last()) {
        lemma_trimmed_end(s.drop_last());
        assert forall|i: int| trimmed_end(s).len() <= i < s.len() implies is_white(#[trigger] s[i]) by {
            if i < s.len() - 1 {
                assert(s.drop_last()[i] == s[i]);
            }
        }
        assert(trimmed_end(s) =~= s.take(trimmed_end(s).len() as int));
    } else {
        assert(s.take(s.len() as int) =~= s);
    }
}

/// Whether `s` is empty or all white space.
pub fn blank(s: &str) -> (r: bool)
    ensures
        r == is_blank(s@),
{
    proof {
        lemma_blank(s@);
    }
    trim(s).as_str().is_empty()
}

/// `s` without the `c` at its end.
pub fn trim_end_char(s: &str, c: char) -> (r: String)
    ensures
        r@ == without_trailing(s@, c),
{
    let cs: Vec<char> = chars_of(s);
    let mut e: usize = cs.len();
    assert(cs@.subrange(0, e as int) =~= s@);
    while 0 < e && cs[e - 1] == c
        invariant
            e <= cs@.len(),
            without_trailing(cs@.subrange(0, e as int), c) == without_trailing(s@, c),
        decreases e,
    {
        assert(cs@.subrange(0, e as int).drop_last() =~= cs@.subrange(0, e - 1));
        e = e - 1;
    }
    string_of(&cs, 0, e)
}

/// `s` without the `c` at its front.
pub fn trim_start_char(s: &str, c: char) -> (r: String)
    ensures
        r@ == without_leading(s@, c),
{
    let cs: Vec<char> = chars_of(s);
    let mut i: usize = 0;
    assert(cs@.subrange(0, cs@.len() as int) =~= s@);
    while i < cs.len() && cs[i] == c
        invariant
            i <= cs@.len(),
            without_leading(cs@.subrange(i as int, cs@.len() as int), c) == without_leading(s@, c),
        decreases cs@.len() - i,
    {
        assert(cs@.subrange(i as int, cs@.len() as int).drop_first() =~= cs@.subrange(
            i + 1,
            cs@.len() as int,
        ));
        i = i + 1;
    }
    string_of(&cs, i, cs.len())
}

/// What stands before and after the first `c` of `s`.
pub fn split_once(s: &str, c: char) -> (r: Option<(String, String)>)
    ensures
        r is Some == s@.contains(c),
        r matches Some((a, b)) ==> a@ == s@.take(char_from(s@, c, 0)) && b@ == s@.skip(
            char_from(s@, c, 0) + 1,
        ),
{
    let cs: Vec<char> = chars_of(s);
    let i: usize = char_index(&cs, c, 0);
    proof {
        lemma_char_from(s@, c, 0);
    }
    if i < cs.len() {
        assert(s@[i as int] == c);
        assert(s@.take(i as int) =~= cs@.subrange(0, i as int));
        assert(s@.skip(i + 1) =~= cs@.subrange(i + 1, cs@.len() as int));
        Some((string_of(&cs, 0, i), string_of(&cs, i + 1, cs.len())))
    } else {
        None
    }
}

fn char_index(cs: &Vec<char>, c: char, from: usize) -> (r: usize)
    requires
        from <= cs@.len(),
    ensures
        r == char_from(cs@, c, from as int),
        from <= r <= cs@.len(),
{
    let mut i: usize = from;
    while i < cs.len() && cs[i] != c
        invariant
            from <= i <= cs@.len(),
            char_from(cs@, c, i as int) == char_from(cs@, c, from as int),
        decreases cs@.len() - i,
    {
        i = i + 1;
    }
    i
}

/// The parts of `s` before, between and after all `c`.
pub fn split(s: &str, c: char) -> (r: Vec<String>)
    ensures
        strs(r@) == parts_of(s@, c),
{
    let cs: Vec<char> = chars_of(s);
    let mut r: Vec<String> = Vec::new();
    let mut i: usize = 0;
    assert(strs(r@) + parts_from(s@, c, 0) =~= parts_of(s@, c));
    loop
        invariant_except_break
            cs@ == s@,
            i <= cs@.len(),
            strs(r@) + parts_from(s@, c, i as int) == parts_of(s@, c),
        ensures
            strs(r@) == parts_of(s@, c),
        decreases cs@.len() - i,
    {
        let e: usize = char_index(&cs, c, i);
        let part: String = string_of(&cs, i, e);
        let ghost was: Seq<String> = r@;
        r.push(part);
        proof {
            assert(strs(r@) =~= strs(was).push(part@));
            let rest = parts_from(s@, c, e + 1);
            assert(strs(r@) + rest =~= strs(was) + (seq![part@] + rest));
        }
        if e == cs.len() {
            assert(parts_from(s@, c, e + 1) =~= Seq::empty());
            assert(strs(r@) + parts_from(s@, c, e + 1) =~= strs(r@));
            break;
        }
        i = e + 1;
    }
    r
}

/// What stands in `s` after the last `c`.
pub fn text_after_last(s: &str, c: char) -> (r: String)
    ensures
        r@ == after_last(s@, c),
{
    let cs: Vec<char> = chars_of(s);
    let n: usize = cs.len();
    let mut i: usize = n;
    proof {
        assert(s@.take(n as int) =~= s@);
        assert(s@.subrange(n as int, n as int) =~= Seq::empty());
        assert(after_last(s@, c) =~= after_last(s@.take(n as int), c) + s@.subrange(n as int, n as int));
    }
    while 0 < i && cs[i - 1] != c
        invariant
            cs@ == s@,
            n == cs@.len(),
            i <= n,
            after_last(s@, c) == after_last(s@.take(i as int), c) + s@.subrange(i as int, n as int),
        decreases i,
    {
        proof {
            let front = s@.take(i as int);
            assert(front.drop_last() =~= s@.take(i - 1));
            assert(after_last(front, c) == after_last(s@.take(i - 1), c).push(s@[i - 1]));
            assert(after_last(front, c) + s@.subrange(i as int, n as int) =~= after_last(
                s@.take(i - 1),
                c,
            ) + s@.subrange(i - 1, n as int));
        }
        i = i - 1;
    }
    proof {
        let front = s@.take(i as int);
        assert(after_last(front, c) =~= Seq::empty());
        assert(after_last(s@, c) =~= s@.subrange(i as int, n as int));
    }
    string_of(&cs, i, n)
}

/// The lines of `s`.
pub fn lines(s: &str) -> (r: Vec<String>)
    ensures
        strs(r@) == lines_of(s@),
{
    let cs: Vec<char> = chars_of(s);
    let mut r: Vec<String> = Vec::new();
    let mut i: usize = 0;
    assert(strs(r@) + lines_from(s@, 0) =~= lines_of(s@));
    while i < cs.len()
        invariant
            cs@ == s@,
            i <= cs@.len(),
            strs(r@) + lines_from(s@, i as int) == lines_of(s@),
        decreases cs@.len() - i,
    {
        let e: usize = char_index(&cs, '\n', i);
        let line: String = if e < cs.len() && i < e && cs[e - 1] == '\r' {
            string_of(&cs, i, e - 1)
        } else {
            string_of(&cs, i, e)
        };
        let ghost was: Seq<String> = r@;
        r.push(line);
        proof {
            assert(strs(r@) =~= strs(was).push(line@));
            assert(line@ == line_at(s@, i as int, e as int));
            let rest = lines_from(s@, e + 1);
            assert(strs(r@) + rest =~= strs(was) + (seq![line@] + rest));
        }
        if e == cs.len() {
            assert(lines_from(s@, e + 1) =~= Seq::empty());
            assert(strs(r@) + lines_from(s@, e + 1) =~= strs(r@));
            return r;
        }
        i = e + 1;
    }
    assert(strs(r@) + lines_from(s@, i as int) =~= strs(r@));
    r
}

/// The words of `s`.
pub fn split_whitespace(s: &str) -> (r: Vec<String>)
    ensures
        strs(r@) == words(s@),
{
    let cs: Vec<char> = chars_of(s);
    let mut r: Vec<String> = Vec::new();
    let mut i: usize = 0;
    assert(strs(r@) + words_from(s@, 0) =~= words(s@));
    while i < cs.len()
        invariant
            cs@ == s@,
            i <= cs@.len(),
            strs(r@) + words_from(s@, i as int) == words(s@),
        decreases cs@.len() - i,
    {
        if is_whitespace(cs[i]) {
            i = i + 1;
        } else {
            let from: usize = i;
            proof {
                lemma_word_end(s@, i + 1);
            }
            while i < cs.len() && !is_whitespace(cs[i])
                invariant
                    cs@ == s@,
                    from <= i <= cs@.len(),
                    word_end(s@, i as int) == word_end(s@, from as int),
                decreases cs@.len() - i,
            {
                i = i + 1;
            }
            let word: String = string_of(&cs, from, i);
            let ghost was: Seq<String> = r@;
            r.push(word);
            proof {
                assert(strs(r@) =~= strs(was).push(word@));
                let rest = words_from(s@, i as int);
                assert(strs(r@) + rest =~= strs(was) + (seq![word@] + rest));
            }
        }
    }
    assert(strs(r@) + words_from(s@, i as int) =~= strs(r@));
    r
}

/// The number of bytes of `s`.
pub fn len_bytes(s: &str) -> (n: usize)
    ensures
        n == byte_len(s@),
{
    s.as_bytes().len()
}

/// The number of characters of `s`.
pub fn len_chars(s: &str) -> (n: usize)
    ensures
        n == s@.len(),
{
    s.unicode_len()
}

/// The first `n` characters of `s`.
pub fn take_chars(s: &str, n: usize) -> (r: String)
    ensures
        r@ == first_chars(s@, n as int),
{
    let cs: Vec<char> = chars_of(s);
    if cs.len() <= n {
        s.to_owned()
    } else {
        assert(cs@.subrange(0, n as int) =~= s@.take(n as int));
        string_of(&cs, 0, n)
    }
}

fn lower_of(c: char) -> (r: char)
    ensures
        r == ascii_lower(c),
{
    match c {
        'A' => 'a',
        'B' => 'b',
        'C' => 'c',
        'D' => 'd',
        'E' => 'e',
        'F' => 'f',
        'G' => 'g',
        'H' => 'h',
        'I' => 'i',
        'J' => 'j',
        'K' => 'k',
        'L' => 'l',
        'M' => 'm',
        'N' => 'n',
        'O' => 'o',
        'P' => 'p',
        'Q' => 'q',
        'R' => 'r',
        'S' => 's',
        'T' => 't',
        'U' => 'u',
        'V' => 'v',
        'W' => 'w',
        'X' => 'x',
        'Y' => 'y',
        'Z' => 'z',
        _ => c,
    }
}

/// Whether `a` and `b` are the same but for the case of the letters `A` to `Z`.
pub fn eq_ignore_ascii_case(a: &str, b: &str) -> (r: bool)
    ensures
        r == same_but_case(a@, b@),
{
    let x: Vec<char> = chars_of(a);
    let y: Vec<char> = chars_of(b);
    if x.len() != y.len() {
        return false;
    }
    let mut i: usize = 0;
    while i < x.len()
        invariant
            x@ == a@,
            y@ == b@,
            x@.len() == y@.len(),
            i <= x@.len(),
            forall|j: int| 0 <= j < i ==> ascii_lower(#[trigger] x@[j]) == ascii_lower(y@[j]),
        decreases x@.len() - i,
    {
        if lower_of(x[i]) != lower_of(y[i]) {
            assert(ascii_lower(a@[i as int]) != ascii_lower(b@[i as int]));
            return false;
        }
        i = i + 1;
    }
    true
}

fn digit_char(d: u64) -> (c: char)
    requires
        d < 10,
    ensures
        c == digit(d as nat),
{
    match d {
        0 => '0',
        1 => '1',
        2 => '2',
        3 => '3',
        4 => '4',
        5 => '5',
        6 => '6',
        7 => '7',
        8 => '8',
        _ => '9',
    }
}

/// `n` in decimal digits.
pub fn decimal(n: u64) -> (s: String)
    ensures
        s@ == dec(n as nat),
    decreases n,
{
    if n < 10 {
        let mut s: String = String::new();
        s.push(digit_char(n));
        assert(s@ =~= seq![digit(n as nat)]);
        s
    } else {
        let mut s: String = decimal(n / 10);
        s.push(digit_char(n % 10));
        s
    }
}

/// `n` in decimal digits, after a minus sign where it is negative.
pub fn signed_decimal(n: i64) -> (s: String)
    ensures
        s@ == signed_dec(n as int),
{
    if n < 0 {
        let mut s: String = String::new();
        s.push('-');
        let m: u64 = if n == i64::MIN {
            0x8000_0000_0000_0000
        } else {
            (-n) as u64
        };
        let d: String = decimal(m);
        s.append(d.as_str());
        assert(s@ =~= seq!['-'] + dec((-n) as nat));
        s
    } else {
        decimal(n as u64)
    }
}

fn value_of_digit(c: char, radix: u32) -> (r: Option<u32>)
    requires
        radix <= 36,
    ensures
        match r {
            Some(d) => digit_value(c, radix as nat) == Some(d as nat) && d < radix,
            None => digit_value(c, radix as nat) is None,
        },
{
    let n: u32 = c as u32;
    let v: u32 = if 48 <= n && n <= 57 {
        n - 48
    } else if 97 <= n && n <= 122 {
        n - 97 + 10
    } else if 65 <= n && n <= 90 {
        n - 65 + 10
    } else {
        36
    };
    if v < radix {
        Some(v)
    } else {
        None
    }
}

/// The number up to `max` that `s` is, written in digits to the base `radix`.
pub fn parse_number(s: &str, radix: u32, max: u64) -> (r: Option<u64>)
    requires
        2 <= radix <= 36,
    ensures
        match r {
            Some(n) => parsed(s@, radix as nat, max as nat) == Some(n as nat),
            None => parsed(s@, radix as nat, max as nat) is None,
        },
{
    let cs: Vec<char> = chars_of(s);
    let from: usize = if cs.len() > 0 && cs[0] == '+' {
        1
    } else {
        0
    };
    let ghost ds: Seq<char> = unsigned_digits(s@);
    assert(ds =~= cs@.subrange(from as int, cs@.len() as int));
    if from == cs.len() {
        return None;
    }
    let mut acc: u64 = 0;
    let mut i: usize = from;
    assert(ds.take(0) =~= Seq::empty());
    while i < cs.len()
        invariant
            from <= i <= cs@.len(),
            2 <= radix <= 36,
            acc <= max,
            ds == cs@.subrange(from as int, cs@.len() as int),
            ds == unsigned_digits(s@),
            number(ds.take(i - from), radix as nat) == Some(acc as nat),
        decreases cs@.len() - i,
    {
        let ghost k: int = i - from;
        assert(ds.take(k + 1).drop_last() =~= ds.take(k));
        assert(ds.take(k + 1).last() == cs@[i as int]);
        match value_of_digit(cs[i], radix) {
            Some(d) => {
                assert(acc * radix <= 0xffff_ffff_ffff_ffff * 36) by (nonlinear_arith)
                    requires
                        acc <= 0xffff_ffff_ffff_ffff,
                        radix <= 36,
                ;
                let next: u128 = (acc as u128) * (radix as u128) + (d as u128);
                if next > max as u128 {
                    proof {
                        lemma_number_grows(ds, radix as nat, k + 1, max as nat);
                    }
                    return None;
                }
                acc = next as u64;
            },
            None => {
                proof {
                    lemma_number_grows(ds, radix as nat, k + 1, max as nat);
                }
                return None;
            },
        }
        i = i + 1;
    }
    assert(ds.take(ds.len() as int) =~= ds);
    Some(acc)
}

// ---------------------------------------------------------------------------
// What the words for texts mean
// ---------------------------------------------------------------------------

/// Space, tab and line breaks are white space; letters, digits and the marks of ASCII are
/// not.
pub proof fn law_white_space_is_what_is_seen_as_space(c: char)
    ensures
        c == ' ' || c == '\t' || c == '\n' || c == '\r' ==> is_white(c),
        0x21 <= c as int <= 0x7e ==> !is_white(c),
        c as int <= 0x8 || 0xe <= c as int <= 0x1f ==> !is_white(c),
{
}

/// A text is found at a position if and only if it stands between a front and a rest.
pub proof fn law_occurrence_is_between_front_and_rest(a: Seq<char>, pat: Seq<char>, b: Seq<char>)
    ensures
        occurs_at(a + pat + b, pat, a.len() as int),
        has(a + pat + b, pat),
        begins(pat + b, pat),
        ends(a + pat, pat),
{
    assert((a + pat + b).subrange(a.len() as int, (a.len() + pat.len()) as int) =~= pat);
    assert(occurs_at(a + pat + b, pat, a.len() as int));
    assert((pat + b).subrange(0, pat.len() as int) =~= pat);
    assert((a + pat).subrange(a.len() as int, (a.len() + pat.len()) as int) =~= pat);
}

/// A text that holds, begins or ends with another is made of it and of what is around it.
pub proof fn law_text_is_made_of_what_it_holds(s: Seq<char>, pat: Seq<char>, i: int)
    requires
        occurs_at(s, pat, i),
    ensures
        s == s.take(i) + pat + s.skip(i + pat.len()),
        begins(s, pat) ==> s == pat + s.skip(pat.len() as int),
        ends(s, pat) ==> s == s.take(s.len() - pat.len()) + pat,
{
    assert forall|j: int| i <= j < i + pat.len() implies s[j] == pat[j - i] by {
        assert(s.subrange(i, i + pat.len())[j - i] == s[j]);
    }
    assert(s =~= s.take(i) + pat + s.skip(i + pat.len()));
    if begins(s, pat) {
        assert forall|j: int| 0 <= j < pat.len() implies s[j] == pat[j] by {
            assert(s.subrange(0, pat.len() as int)[j] == s[j]);
        }
        assert(s =~= pat + s.skip(pat.len() as int));
    }
    if ends(s, pat) {
        let k = s.len() - pat.len();
        assert forall|j: int| 0 <= j < pat.len() implies s[k + j] == pat[j] by {
            assert(s.subrange(k, k + pat.len())[j] == s[k + j]);
        }
        assert(s =~= s.take(k) + pat);
    }
}

/// What stands before and after a text is counted from where it stands first.
pub proof fn law_text_is_parted_where_it_stands_first(a: Seq<char>, pat: Seq<char>, b: Seq<char>)
    requires
        forall|j: int| 0 <= j < a.len() ==> #[trigger] (a + pat + b).subrange(j, j + pat.len()) != pat,
    ensures
        before(a + pat + b, pat) == a,
        after(a + pat + b, pat) == Some(b),
{
    let s = a + pat + b;
    law_occurrence_is_between_front_and_rest(a, pat, b);
    lemma_find_from(s, pat, 0);
    match find_from(s, pat, 0) {
        Some(k) => {
            if k < a.len() {
                assert(s.subrange(k, k + pat.len()) != pat);
            }
            assert(k == a.len()) by {
                if k > a.len() {
                    assert(!occurs_at(s, pat, a.len() as int));
                }
            }
            assert(s.take(k) =~= a);
            assert(s.skip(k + pat.len()) =~= b);
        },
        None => {
            assert(!occurs_at(s, pat, a.len() as int));
        },
    }
}

/// A text that does not hold another has all of itself before it, and nothing after it.
pub proof fn law_text_without_it_is_all_before(s: Seq<char>, pat: Seq<char>)
    requires
        forall|a: Seq<char>, b: Seq<char>| s != #[trigger] (a + pat + b),
    ensures
        before(s, pat) == s,
        after(s, pat) is None,
        !self::has(s, pat),
{
    lemma_find_from(s, pat, 0);
    assert forall|i: int| !occurs_at(s, pat, i) by {
        if occurs_at(s, pat, i) {
            law_text_is_made_of_what_it_holds(s, pat, i);
        }
    }
}

proof fn lemma_start_taken_off(a: Seq<char>, t: Seq<char>)
    requires
        is_blank(a),
        t.len() > 0 ==> !is_white(t[0]),
    ensures
        trimmed_start(a + t) == t,
    decreases a.len(),
{
    let s = a + t;
    if a.len() > 0 {
        assert(is_white(a[0]));
        assert(s[0] == a[0]);
        assert(s.drop_first() =~= a.drop_first() + t);
        assert(is_blank(a.drop_first())) by {
            assert forall|i: int| 0 <= i < a.drop_first().len() implies is_white(#[trigger] a.drop_first()[i]) by {
                assert(is_white(a[i + 1]));
            }
        }
        lemma_start_taken_off(a.drop_first(), t);
    } else {
        assert(s =~= t);
    }
}

proof fn lemma_end_taken_off(t: Seq<char>, b: Seq<char>)
    requires
        is_blank(b),
        t.len() > 0 ==> !is_white(t.last()),
    ensures
        trimmed_end(t + b) == t,
    decreases b.len(),
{
    let s = t + b;
    if b.len() > 0 {
        assert(is_white(b[b.len() - 1]));
        assert(s.last() == b.last());
        assert(s.drop_last() =~= t + b.drop_last());
        assert(is_blank(b.drop_last())) by {
            assert forall|i: int| 0 <= i < b.drop_last().len() implies is_white(#[trigger] b.drop_last()[i]) by {
                assert(is_white(b[i]));
            }
        }
        lemma_end_taken_off(t, b.drop_last());
    } else {
        assert(s =~= t);
    }
}

/// White space around a text is taken off, and nothing else.
pub proof fn law_white_space_around_is_taken_off(a: Seq<char>, t: Seq<char>, b: Seq<char>)
    requires
        forall|i: int| 0 <= i < a.len() ==> is_white(#[trigger] a[i]),
        forall|i: int| 0 <= i < b.len() ==> is_white(#[trigger] b[i]),
        t.len() > 0 ==> !is_white(t[0]) && !is_white(t.last()),
    ensures
        trimmed(a + t + b) == t,
{
    if t.len() > 0 {
        assert(a + t + b =~= a + (t + b));
        lemma_start_taken_off(a, t + b);
        lemma_end_taken_off(t, b);
    } else {
        let s = a + t + b;
        assert(s =~= (a + b) + Seq::<char>::empty());
        assert forall|i: int| 0 <= i < (a + b).len() implies is_white(#[trigger] (a + b)[i]) by {
            if i < a.len() {
                assert(is_white(a[i]));
            } else {
                assert(is_white(b[i - a.len()]));
            }
        }
        lemma_start_taken_off(a + b, Seq::empty());
        lemma_end_taken_off(Seq::empty(), Seq::empty());
        assert(Seq::<char>::empty() + Seq::<char>::empty() =~= Seq::<char>::empty());
        assert(t =~= Seq::empty());
    }
}

proof fn lemma_replaced_shift(s: Seq<char>, k: int, i: int, pat: Seq<char>, to: Seq<char>)
    requires
        0 <= k <= s.len(),
        0 <= i,
        pat.len() > 0,
    ensures
        replaced_from(s, k + i, pat, to) == replaced_from(s.skip(k), i, pat, to),
    decreases s.len() - k - i,
{
    let t = s.skip(k);
    if k + i < s.len() {
        assert(occurs_at(s, pat, k + i) <==> occurs_at(t, pat, i)) by {
            if k + i + pat.len() <= s.len() {
                assert(s.subrange(k + i, k + i + pat.len()) =~= t.subrange(i, i + pat.len()));
            }
        }
        if occurs_at(s, pat, k + i) {
            lemma_replaced_shift(s, k, i + pat.len(), pat, to);
        } else {
            lemma_replaced_shift(s, k, i + 1, pat, to);
        }
    }
}

proof fn lemma_kept_up_to(s: Seq<char>, i: int, n: int, pat: Seq<char>, to: Seq<char>)
    requires
        0 <= i <= n <= s.len(),
        pat.len() > 0,
        forall|j: int| i <= j < n ==> !#[trigger] occurs_at(s, pat, j),
    ensures
        replaced_from(s, i, pat, to) == s.subrange(i, n) + replaced_from(s, n, pat, to),
    decreases n - i,
{
    if i < n {
        assert(!occurs_at(s, pat, i));
        lemma_kept_up_to(s, i + 1, n, pat, to);
        assert(s.subrange(i, n) =~= seq![s[i]] + s.subrange(i + 1, n));
        assert(seq![s[i]] + (s.subrange(i + 1, n) + replaced_from(s, n, pat, to)) =~= s.subrange(i, n)
            + replaced_from(s, n, pat, to));
    } else {
        assert(s.subrange(i, n) + replaced_from(s, n, pat, to) =~= replaced_from(s, n, pat, to));
    }
}

/// Each occurrence is replaced, from the left: the front up to the first one stays, and the
/// rest is treated in the same way.
pub proof fn law_occurrences_are_replaced(a: Seq<char>, pat: Seq<char>, b: Seq<char>, to: Seq<char>)
    requires
        pat.len() > 0,
        forall|j: int| 0 <= j < a.len() ==> #[trigger] (a + pat + b).subrange(j, j + pat.len()) != pat,
    ensures
        replaced(a + pat + b, pat, to) == a + to + replaced(b, pat, to),
{
    let s = a + pat + b;
    law_occurrence_is_between_front_and_rest(a, pat, b);
    let n = a.len() as int;
    assert forall|j: int| 0 <= j < n implies !#[trigger] occurs_at(s, pat, j) by {
        assert(s.subrange(j, j + pat.len()) != pat);
    }
    lemma_kept_up_to(s, 0, n, pat, to);
    assert(s.subrange(0, n) =~= a);
    lemma_replaced_shift(s, n + pat.len(), 0, pat, to);
    assert(s.skip(n + pat.len()) =~= b);
    if pat.len() > 0 {
        assert(n < s.len());
    }
    assert(a + (to + replaced(b, pat, to)) =~= a + to + replaced(b, pat, to));
}

/// A text in which nothing is found stays as it is.
pub proof fn law_nothing_is_replaced_without_occurrence(s: Seq<char>, pat: Seq<char>, to: Seq<char>)
    requires
        pat.len() > 0,
        forall|a: Seq<char>, b: Seq<char>| s != #[trigger] (a + pat + b),
    ensures
        replaced(s, pat, to) == s,
{
    law_text_without_it_is_all_before(s, pat);
    let n = s.len() as int;
    assert forall|j: int| 0 <= j < n implies !#[trigger] occurs_at(s, pat, j) by {
        assert(!self::has(s, pat));
    }
    lemma_kept_up_to(s, 0, n, pat, to);
    assert(s.subrange(0, n) =~= s);
    assert(s + Seq::<char>::empty() =~= s);
}

proof fn lemma_word_end_shift(s: Seq<char>, k: int, i: int)
    requires
        0 <= k <= s.len(),
        0 <= i,
    ensures
        word_end(s, k + i) == k + word_end(s.skip(k), i),
    decreases s.len() - k - i,
{
    if k + i < s.len() {
        assert(s.skip(k)[i] == s[k + i]);
        if !is_white(s[k + i]) {
            lemma_word_end_shift(s, k, i + 1);
        }
    }
}

proof fn lemma_words_shift(s: Seq<char>, k: int, i: int)
    requires
        0 <= k <= s.len(),
        0 <= i,
    ensures
        words_from(s, k + i) == words_from(s.skip(k), i),
    decreases s.len() - k - i,
{
    let t = s.skip(k);
    if k + i < s.len() {
        assert(t[i] == s[k + i]);
        if is_white(s[k + i]) {
            lemma_words_shift(s, k, i + 1);
        } else {
            lemma_word_end(s, k + i + 1);
            lemma_word_end_shift(s, k, i);
            let e = word_end(t, i);
            lemma_word_end(t, i + 1);
            assert(s.subrange(k + i, k + e) =~= t.subrange(i, e));
            lemma_words_shift(s, k, e);
        }
    }
}

/// A text begins with its first word, up to the next white space. White space in front is
/// passed over.
pub proof fn law_words_are_runs_without_white_space(w: Seq<char>, rest: Seq<char>)
    ensures
        w.len() > 0 && (forall|i: int| 0 <= i < w.len() ==> !is_white(#[trigger] w[i])) && (rest.len() > 0
            ==> is_white(rest[0])) ==> words(w + rest) == seq![w] + words(rest),
        w.len() > 0 && (forall|i: int| 0 <= i < w.len() ==> is_white(#[trigger] w[i])) ==> words(w + rest) == words(
            rest,
        ),
        words(Seq::empty()).len() == 0,
{
    let s = w + rest;
    let n = w.len() as int;
    assert(s.skip(n) =~= rest);
    lemma_words_shift(s, n, 0);
    if w.len() > 0 && (forall|i: int| 0 <= i < w.len() ==> !is_white(#[trigger] w[i])) && (rest.len() > 0 ==> is_white(
        rest[0],
    )) {
        lemma_word_end(s, 0);
        let e = word_end(s, 0);
        assert(e == n) by {
            if e < n {
                assert(s[e] == w[e]);
            } else if e > n {
                assert(!is_white(s[n]));
                assert(s[n] == rest[0]);
            }
        }
        assert(s[0] == w[0]);
        assert(s.subrange(0, n) =~= w);
    }
    if w.len() > 0 && (forall|i: int| 0 <= i < w.len() ==> is_white(#[trigger] w[i])) {
        lemma_white_passed(s, 0, n);
    }
}

proof fn lemma_white_passed(s: Seq<char>, i: int, n: int)
    requires
        0 <= i <= n <= s.len(),
        forall|j: int| i <= j < n ==> is_white(#[trigger] s[j]),
    ensures
        words_from(s, i) == words_from(s, n),
    decreases n - i,
{
    if i < n {
        assert(is_white(s[i]));
        lemma_white_passed(s, i + 1, n);
    }
}

proof fn lemma_char_from_shift(s: Seq<char>, c: char, k: int, i: int)
    requires
        0 <= k <= s.len(),
        0 <= i,
    ensures
        char_from(s, c, k + i) == k + char_from(s.skip(k), c, i),
    decreases s.len() - k - i,
{
    if k + i < s.len() {
        assert(s.skip(k)[i] == s[k + i]);
        if s[k + i] != c {
            lemma_char_from_shift(s, c, k, i + 1);
        }
    }
}

proof fn lemma_parts_shift(s: Seq<char>, c: char, k: int, i: int)
    requires
        0 <= k <= s.len(),
        0 <= i,
    ensures
        parts_from(s, c, k + i) == parts_from(s.skip(k), c, i),
    decreases s.len() - k - i + 1,
{
    let t = s.skip(k);
    if k + i <= s.len() {
        lemma_char_from(t, c, i);
        lemma_char_from_shift(s, c, k, i);
        let e = char_from(t, c, i);
        assert(s.subrange(k + i, k + e) =~= t.subrange(i, e));
        lemma_parts_shift(s, c, k, e + 1);
    }
}

proof fn lemma_first_mark(a: Seq<char>, c: char, b: Seq<char>)
    requires
        forall|i: int| 0 <= i < a.len() ==> #[trigger] a[i] != c,
    ensures
        char_from(a + seq![c] + b, c, 0) == a.len(),
        char_from(a, c, 0) == a.len(),
{
    let s = a + seq![c] + b;
    lemma_char_from(s, c, 0);
    lemma_char_from(a, c, 0);
    let e = char_from(s, c, 0);
    assert(s[a.len() as int] == c);
    if e < a.len() {
        assert(s[e] == a[e]);
    }
    let f = char_from(a, c, 0);
    if f < a.len() {
        assert(a[f] != c);
    }
}

/// A text is parted at each mark; what has no mark is one part.
pub proof fn law_text_is_parted_at_each_mark(a: Seq<char>, c: char, b: Seq<char>)
    requires
        forall|i: int| 0 <= i < a.len() ==> #[trigger] a[i] != c,
    ensures
        parts_of(a + seq![c] + b, c) == seq![a] + parts_of(b, c),
        parts_of(a, c) == seq![a],
{
    let s = a + seq![c] + b;
    let n = a.len() as int;
    lemma_first_mark(a, c, b);
    assert(s.subrange(0, n) =~= a);
    lemma_parts_shift(s, c, n + 1, 0);
    assert(s.skip(n + 1) =~= b);
    assert(a.subrange(0, n) =~= a);
    assert(parts_from(a, c, n + 1) =~= Seq::empty());
    assert(seq![a] + Seq::<Seq<char>>::empty() =~= seq![a]);
}

proof fn lemma_lines_shift(s: Seq<char>, k: int, i: int)
    requires
        0 <= k <= s.len(),
        0 <= i,
    ensures
        lines_from(s, k + i) == lines_from(s.skip(k), i),
    decreases s.len() - k - i + 1,
{
    let t = s.skip(k);
    if k + i < s.len() {
        lemma_char_from(t, '\n', i);
        lemma_char_from_shift(s, '\n', k, i);
        let e = char_from(t, '\n', i);
        if e < t.len() && i < e {
            assert(t[e - 1] == s[k + e - 1]);
        }
        assert(line_at(s, k + i, k + e) =~= line_at(t, i, e));
        lemma_lines_shift(s, k, e + 1);
    }
}

/// A line ends at a line feed. A carriage return right before it belongs to the break, and
/// the last line may lack its line feed.
pub proof fn law_lines_end_at_line_feeds(a: Seq<char>, b: Seq<char>)
    requires
        forall|i: int| 0 <= i < a.len() ==> #[trigger] a[i] != '\n',
    ensures
        a.len() == 0 || a.last() != '\r' ==> lines_of(a + seq!['\n'] + b) == seq![a] + lines_of(b),
        a.len() > 0 && a.last() == '\r' ==> lines_of(a + seq!['\n'] + b) == seq![a.drop_last()] + lines_of(b),
        a.len() > 0 ==> lines_of(a) == seq![a],
        lines_of(Seq::empty()).len() == 0,
{
    let s = a + seq!['\n'] + b;
    let n = a.len() as int;
    lemma_first_mark(a, '\n', b);
    lemma_lines_shift(s, n + 1, 0);
    assert(s.skip(n + 1) =~= b);
    if n > 0 {
        assert(s[n - 1] == a.last());
    }
    assert(s.subrange(0, n) =~= a);
    if n > 0 && a.last() == '\r' {
        assert(s.subrange(0, n - 1) =~= a.drop_last());
    }
    if n > 0 {
        assert(a.subrange(0, n) =~= a);
        assert(lines_from(a, n + 1) =~= Seq::empty());
        assert(seq![a] + Seq::<Seq<char>>::empty() =~= seq![a]);
    }
}

proof fn lemma_after_last(s: Seq<char>, c: char, b: Seq<char>)
    requires
        forall|i: int| 0 <= i < b.len() ==> #[trigger] b[i] != c,
    ensures
        after_last(s.push(c) + b, c) == b,
        after_last(b, c) == b,
    decreases b.len(),
{
    let t = s.push(c) + b;
    if b.len() > 0 {
        let d = b.drop_last();
        assert forall|i: int| 0 <= i < d.len() implies #[trigger] d[i] != c by {
            assert(b[i] != c);
        }
        assert(b[b.len() - 1] != c);
        assert(t.last() == b.last());
        assert(t.drop_last() =~= s.push(c) + d);
        lemma_after_last(s, c, d);
        assert(d.push(b.last()) =~= b);
    } else {
        assert(t =~= s.push(c));
        assert(b =~= Seq::empty());
    }
}

/// What stands after the last mark; all of a text without it.
pub proof fn law_text_after_the_last_mark(a: Seq<char>, c: char, b: Seq<char>)
    requires
        forall|i: int| 0 <= i < b.len() ==> #[trigger] b[i] != c,
    ensures
        after_last(a + seq![c] + b, c) == b,
        after_last(b, c) == b,
{
    lemma_after_last(a, c, b);
    assert(a + seq![c] + b =~= a.push(c) + b);
}

/// Marks at an end are taken off one by one, and nothing else.
pub proof fn law_marks_at_the_ends_are_taken_off(t: Seq<char>, c: char)
    ensures
        without_trailing(t.push(c), c) == without_trailing(t, c),
        t.len() == 0 || t.last() != c ==> without_trailing(t, c) == t,
        without_leading(seq![c] + t, c) == without_leading(t, c),
        t.len() == 0 || t[0] != c ==> without_leading(t, c) == t,
{
    assert(t.push(c).drop_last() =~= t);
    assert((seq![c] + t).drop_first() =~= t);
}

/// A text stands before another where it is the front of it, or has the smaller character
/// where they first differ.
pub proof fn law_order_goes_by_the_first_difference(a: Seq<char>, b: Seq<char>, i: int)
    requires
        0 <= i <= a.len(),
        i <= b.len(),
        forall|j: int| 0 <= j < i ==> #[trigger] a[j] == b[j],
    ensures
        i < a.len() && i < b.len() && a[i] != b[i] ==> (precedes(a, b) <==> a[i] < b[i]),
        i == a.len() && i < b.len() ==> precedes(a, b),
        i == b.len() ==> !precedes(a, b),
    decreases i,
{
    if i > 0 {
        assert(a[0] == b[0]);
        let c = a.drop_first();
        let d = b.drop_first();
        assert forall|j: int| 0 <= j < i - 1 implies #[trigger] c[j] == d[j] by {
            assert(a[j + 1] == b[j + 1]);
        }
        law_order_goes_by_the_first_difference(c, d, i - 1);
    }
}

/// Case does not count for the letters of ASCII, and counts for everything else.
pub proof fn law_case_does_not_count(a: Seq<char>, b: Seq<char>)
    ensures
        same_but_case(a, b) <==> a.len() == b.len() && forall|i: int|
            0 <= i < a.len() ==> #[trigger] a[i] == b[i] || ('A' <= a[i] <= 'Z' && b[i] as int == a[i] as int + 32) || (
            'A' <= b[i] <= 'Z' && a[i] as int == b[i] as int + 32),
{
    assert forall|c: char, d: char| #[trigger] ascii_lower(c) == #[trigger] ascii_lower(d) <==> c == d || ('A' <= c <= 'Z'
        && d as int == c as int + 32) || ('A' <= d <= 'Z' && c as int == d as int + 32) by {}
    if a.len() == b.len() && forall|i: int|
        0 <= i < a.len() ==> #[trigger] a[i] == b[i] || ('A' <= a[i] <= 'Z' && b[i] as int == a[i] as int + 32) || (
        'A' <= b[i] <= 'Z' && a[i] as int == b[i] as int + 32) {
        assert forall|i: int| 0 <= i < a.len() implies ascii_lower(#[trigger] a[i]) == ascii_lower(b[i]) by {}
    }
    if same_but_case(a, b) {
        assert forall|i: int| 0 <= i < a.len() implies #[trigger] a[i] == b[i] || ('A' <= a[i] <= 'Z' && b[i] as int
            == a[i] as int + 32) || ('A' <= b[i] <= 'Z' && a[i] as int == b[i] as int + 32) by {
            assert(ascii_lower(a[i]) == ascii_lower(b[i]));
        }
    }
}

proof fn lemma_digit(d: nat)
    requires
        d < 10,
    ensures
        digit(d) as int == '0' as int + d,
        digit_value(digit(d), 10) == Some(d),
        digit(d) != '+',
{
}

proof fn lemma_dec(n: nat)
    ensures
        dec(n).len() > 0,
        number(dec(n), 10) == Some(n),
        n > 0 ==> dec(n)[0] != '0',
        '0' <= dec(n)[0] <= '9',
    decreases n,
{
    if n < 10 {
        lemma_digit(n);
        let s = seq![digit(n)];
        assert(s.drop_last() =~= Seq::<char>::empty());
        assert(number(Seq::<char>::empty(), 10) == Some(0nat));
        assert(s.last() == digit(n));
    } else {
        lemma_dec(n / 10);
        lemma_digit(n % 10);
        let s = dec(n / 10).push(digit(n % 10));
        assert(s.drop_last() =~= dec(n / 10));
        assert(s[0] == dec(n / 10)[0]);
        assert(n / 10 * 10 + n % 10 == n);
    }
}

/// A number that is written in digits is read back, and is written without zeros in front.
pub proof fn law_number_is_read_back(n: nat, max: nat)
    ensures
        n <= max ==> parsed(dec(n), 10, max) == Some(n),
        n > max ==> parsed(dec(n), 10, max) is None,
        n <= max ==> parsed(seq!['+'] + dec(n), 10, max) == Some(n),
        n > 0 ==> dec(n)[0] != '0',
        n < 10 ==> dec(n).len() == 1 && dec(n)[0] as int == '0' as int + n,
{
    lemma_dec(n);
    let s = seq!['+'] + dec(n);
    assert(s.drop_first() =~= dec(n));
    if n < 10 {
        lemma_digit(n);
    }
}

/// Digits count from zero to nine and on from `a`, in either case, as far as the base goes;
/// other characters are no digits.
pub proof fn law_digits_count_up(c: char, radix: nat)
    requires
        radix <= 36,
    ensures
        digit_value(c, radix) matches Some(v) ==> v < radix,
        '0' <= c <= '9' && c as int - '0' as int + 0 < radix ==> digit_value(c, radix) == Some((c as int - '0' as int) as nat),
        'a' <= c <= 'z' && c as int - 'a' as int + 10 < radix ==> digit_value(c, radix) == Some(
            (c as int - 'a' as int + 10) as nat,
        ),
        'A' <= c <= 'Z' && c as int - 'A' as int + 10 < radix ==> digit_value(c, radix) == Some(
            (c as int - 'A' as int + 10) as nat,
        ),
        !('0' <= c <= '9') && !('a' <= c <= 'z') && !('A' <= c <= 'Z') ==> digit_value(c, radix) is None,
        c == '-' || c == ' ' || c == '+' ==> digit_value(c, radix) is None,
{
}

/// Each further digit makes the number as many times larger as the base says, and adds its
/// own value. A text without digits is no number.
pub proof fn law_each_digit_counts_by_its_place(s: Seq<char>, c: char, radix: nat, max: nat)
    ensures
        number(s, radix) is Some && digit_value(c, radix) is Some ==> number(s.push(c), radix) == Some(
            number(s, radix)->0 * radix + digit_value(c, radix)->0,
        ),
        digit_value(c, radix) is None ==> number(s.push(c), radix) is None,
        parsed(Seq::empty(), radix, max) is None,
        parsed(seq!['+'], radix, max) is None,
{
    assert(s.push(c).drop_last() =~= s);
    assert(seq!['+'].drop_first() =~= Seq::<char>::empty());
}

/// Lists and texts that may be there are seen value by value.
pub proof fn law_views_are_value_by_value(v: Seq<String>, s: String, i: int)
    ensures
        strs(v).len() == v.len(),
        0 <= i < v.len() ==> strs(v)[i] == v[i]@,
        opt(Some(s)) == Some(s@),
        opt(None::<String>) is None,
        opt_str(None::<&str>) is None,
{
}

/// The front of a text has as many characters as are asked for, or all there are.
pub proof fn law_front_is_of_the_asked_length(s: Seq<char>, n: int)
    requires
        0 <= n,
    ensures
        n <= s.len() ==> first_chars(s, n) == s.take(n),
        n >= s.len() ==> first_chars(s, n) == s,
        byte_len(s) == vstd::utf8::encode_utf8(s).len(),
{
    if n == s.len() {
        assert(s.take(n) =~= s);
    }
}

/// What is not in a list is what none of its texts is.
pub proof fn law_text_is_in_a_list_or_not(l: Seq<Seq<char>>, k: Seq<char>)
    ensures
        not_in(l)(k) <==> !l.contains(k),
{
}

/// A text is blank where each of its characters is white space, and nothing is left of it after
/// trimming.
pub proof fn law_blank_text_is_white_space(c: char, s: Seq<char>)
    ensures
        is_blank(Seq::empty()),
        is_blank(seq![c] + s) <==> is_white(c) && is_blank(s),
        is_blank(s) <==> trimmed(s).len() == 0,
{
    lemma_blank(s);
    let t = seq![c] + s;
    assert(t[0] == c);
    if is_blank(t) {
        assert forall|i: int| 0 <= i < s.len() implies is_white(#[trigger] s[i]) by {
            assert(t[i + 1] == s[i]);
        }
    }
    if is_white(c) && is_blank(s) {
        assert forall|i: int| 0 <= i < t.len() implies is_white(#[trigger] t[i]) by {
            if i > 0 {
                assert(t[i] == s[i - 1]);
            }
        }
    }
}

} // verus!
