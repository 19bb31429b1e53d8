//! Text as sequences of characters: taking it apart, searching it, and building it.
use vstd::prelude::*;

pub mod number;

verus! {

/// `String::push` appends one character at the end of the string.
pub assume_specification[ String::push ](s: &mut String, ch: char)
    ensures
        final(s)@ == old(s)@.push(ch),
;

/// What `char::is_whitespace` says of a character.
pub uninterp spec fn white_space(c: char) -> bool;

/// What `char::is_alphabetic` says of a character.
pub uninterp spec fn alphabetic(c: char) -> bool;

/// What `char::is_alphanumeric` says of a character.
pub uninterp spec fn alphanumeric(c: char) -> bool;

/// What `str::to_lowercase` returns for a text.
pub uninterp spec fn lowercase(s: Seq<char>) -> Seq<char>;

/// What `str::to_uppercase` returns for a text.
pub uninterp spec fn uppercase(s: Seq<char>) -> Seq<char>;

/// What `String::from_utf8_lossy` returns for a byte sequence.
pub uninterp spec fn utf8_lossy(bytes: Seq<u8>) -> Seq<char>;

/// `char::is_whitespace`: a function of the character. Among ASCII characters it is
/// true of the space and of U+0009 to U+000D.
#[verifier::external_body]
pub(crate) fn is_white_space(c: char) -> (b: bool)
    ensures
        b == white_space(c),
        is_ascii_char(c) ==> b == (c == ' ' || 9 <= c as u32 <= 13),
{
    c.is_whitespace()
}

/// `char::is_alphabetic`: a function of the character. Among ASCII characters it is true
/// of the letters.
#[verifier::external_body]
pub(crate) fn is_alphabetic(c: char) -> (b: bool)
    ensures
        b == alphabetic(c),
        is_ascii_char(c) ==> b == is_ascii_letter(c),
{
    c.is_alphabetic()
}

/// `char::is_alphanumeric`: a function of the character. Among ASCII characters it is true
/// of the letters and the decimal digits.
#[verifier::external_body]
pub(crate) fn is_alphanumeric(c: char) -> (b: bool)
    ensures
        b == alphanumeric(c),
        is_ascii_char(c) ==> b == (is_ascii_letter(c) || '0' <= c <= '9'),
{
    c.is_alphanumeric()
}

/// `str::to_lowercase`: a function of the text. Of a text that is all ASCII it changes the
/// letters `A` to `Z`, each to its small letter, and nothing else.
#[verifier::external_body]
pub(crate) fn to_lowercase(s: &str) -> (r: String)
    ensures
        r@ == lowercase(s@),
        all_ascii(s@) ==> r@ == ascii_lower(s@),
{
    s.to_lowercase()
}

/// `str::to_uppercase`: a function of the text. Of a text that is all ASCII it changes the
/// letters `a` to `z`, each to its capital letter, and nothing else.
#[verifier::external_body]
pub(crate) fn to_uppercase(s: &str) -> (r: String)
    ensures
        r@ == uppercase(s@),
        all_ascii(s@) ==> r@ == ascii_upper(s@),
{
    s.to_uppercase()
}

/// `String::from_utf8_lossy`: a function of the bytes. Bytes that are valid UTF-8 come out
/// as the text that they encode.
#[verifier::external_body]
pub(crate) fn from_utf8_lossy(bytes: &[u8]) -> (r: String)
    ensures
        r@ == utf8_lossy(bytes@),
        vstd::utf8::valid_utf8(bytes@) ==> r@ == vstd::utf8::decode_utf8(bytes@),
{
    String::from_utf8_lossy(bytes).to_string()
}

/// The character is ASCII.
pub open spec fn is_ascii_char(c: char) -> bool {
    (c as u32) < 128
}

/// Every character of the text is ASCII.
pub open spec fn all_ascii(s: Seq<char>) -> bool {
    forall|i: int| 0 <= i < s.len() ==> is_ascii_char(#[trigger] s[i])
}

/// The character is one of `A` to `Z` or `a` to `z`.
pub open spec fn is_ascii_letter(c: char) -> bool {
    'A' <= c <= 'Z' || 'a' <= c <= 'z'
}

/// The small letter of one of `A` to `Z`; any other character itself.
pub open spec fn ascii_lower_char(c: char) -> char {
    if 'A' <= c <= 'Z' {
        ((c as u32) + 32) as char
    } else {
        c
    }
}

/// The capital letter of one of `a` to `z`; any other character itself.
pub open spec fn ascii_upper_char(c: char) -> char {
    if 'a' <= c <= 'z' {
        ((c as u32) - 32) as char
    } else {
        c
    }
}

/// The text with its ASCII letters made small.
pub open spec fn ascii_lower(s: Seq<char>) -> Seq<char> {
    Seq::new(s.len(), |i: int| ascii_lower_char(s[i]))
}

/// The text with its ASCII letters made capital.
pub open spec fn ascii_upper(s: Seq<char>) -> Seq<char> {
    Seq::new(s.len(), |i: int| ascii_upper_char(s[i]))
}

/// The text without the white space at its start.
pub open spec fn trim_start(s: Seq<char>) -> Seq<char>
    decreases s.len(),
{
    if s.len() > 0 && white_space(s[0]) {
        trim_start(s.drop_first())
    } else {
        s
    }
}

/// The text without the white space at its end.
pub open spec fn trim_end(s: Seq<char>) -> Seq<char>
    decreases s.len(),
{
    if s.len() > 0 && white_space(s.last()) {
        trim_end(s.drop_last())
    } else {
        s
    }
}

/// The text without the white space around it.
pub open spec fn trimmed(s: Seq<char>) -> Seq<char> {
    trim_end(trim_start(s))
}

/// `pat` stands in `s` at position `i`.
pub open spec fn occurs_at(s: Seq<char>, pat: Seq<char>, i: int) -> bool {
    0 <= i && i + pat.len() <= s.len() && s.subrange(i, i + pat.len()) == pat
}

/// `pat` stands somewhere in `s`.
pub open spec fn contains_text(s: Seq<char>, pat: Seq<char>) -> bool {
    exists|i: int| occurs_at(s, pat, i)
}

/// `s` begins with `pat`.
pub open spec fn begins_with(s: Seq<char>, pat: Seq<char>) -> bool {
    occurs_at(s, pat, 0)
}

/// The first position at or after `from` at which `pat` stands in `s`.
pub open spec fn find_from(s: Seq<char>, pat: Seq<char>, from: int) -> Option<int>
    decreases s.len() + 1 - from,
{
    if from + pat.len() > s.len() {
        None
    } else if occurs_at(s, pat, from) {
        Some(from)
    } else {
        find_from(s, pat, from + 1)
    }
}

/// The first position at which `pat` stands in `s`.
pub open spec fn find_text(s: Seq<char>, pat: Seq<char>) -> Option<int> {
    find_from(s, pat, 0)
}

/// The first alphanumeric character of `s`.
pub open spec fn first_alphanumeric(s: Seq<char>) -> Option<char>
    decreases s.len(),
{
    if s.len() == 0 {
        None
    } else if alphanumeric(s[0]) {
        Some(s[0])
    } else {
        first_alphanumeric(s.drop_first())
    }
}

/// The first alphabetic character of `s`.
pub open spec fn first_alphabetic(s: Seq<char>) -> Option<char>
    decreases s.len(),
{
    if s.len() == 0 {
        None
    } else if alphabetic(s[0]) {
        Some(s[0])
    } else {
        first_alphabetic(s.drop_first())
    }
}

/// A search finds the earliest occurrence, and fails only where there is none.
pub proof fn find_from_is_first(s: Seq<char>, pat: Seq<char>, from: int)
    requires
        0 <= from,
    ensures
        match find_from(s, pat, from) {
            Some(i) => from <= i && occurs_at(s, pat, i) && forall|j: int|
                from <= j < i ==> !occurs_at(s, pat, j),
            None => forall|j: int| from <= j ==> !occurs_at(s, pat, j),
        },
    decreases s.len() + 1 - from,
{
    if from + pat.len() > s.len() {
    } else if occurs_at(s, pat, from) {
    } else {
        find_from_is_first(s, pat, from + 1);
        match find_from(s, pat, from) {
            Some(i) => {
                assert forall|j: int| from <= j < i implies !occurs_at(s, pat, j) by {}
            },
            None => {
                assert forall|j: int| from <= j implies !occurs_at(s, pat, j) by {}
            },
        }
    }
}

/// The characters of a text.
pub fn chars_of(s: &str) -> (v: Vec<char>)
    ensures
        v@ == s@,
{
    let mut v: Vec<char> = Vec::new();
    for c in it: s.chars()
        invariant
            v@ == it.seq().take(it.index() as int),
            it.seq() == s@,
    {
        v.push(c);
    }
    assert(v@ == s@);
    v
}

/// The text made of these characters.
pub fn string_of(v: &[char]) -> (s: String)
    ensures
        s@ == v@,
{
    let mut s = String::new();
    let mut i: usize = 0;
    while i < v.len()
        invariant
            i <= v.len(),
            s@ == v@.take(i as int),
        decreases v.len() - i,
    {
        s.push(v[i]);
        i += 1;
        assert(v@.take(i as int) == v@.take(i - 1).push(v@[i - 1]));
    }
    assert(v@.take(i as int) == v@);
    s
}

/// Whether two texts are the same.
pub fn eq_text(a: &str, b: &str) -> (r: bool)
    ensures
        r == (a@ == b@),
{
    let x = chars_of(a);
    let y = chars_of(b);
    if x.len() != y.len() {
        return false;
    }
    let mut i: usize = 0;
    while i < x.len()
        invariant
            i <= x.len(),
            x.len() == y.len(),
            x@ == a@,
            y@ == b@,
            forall|j: int| 0 <= j < i ==> x@[j] == y@[j],
        decreases x.len() - i,
    {
        if x[i] != y[i] {
            return false;
        }
        i += 1;
    }
    assert(a@ == b@);
    true
}

/// The text without the white space around it.
pub fn trim(s: &str) -> (r: String)
    ensures
        r@ == trimmed(s@),
{
    let v = chars_of(s);
    let n = v.len();
    let mut i: usize = 0;
    assert(v@.subrange(0, n as int) == v@);
    while i < n && is_white_space(v[i])
        invariant
            n == v.len(),
            i <= n,
            trim_start(v@) == trim_start(v@.subrange(i as int, n as int)),
        decreases n - i,
    {
        assert(v@.subrange(i as int, n as int).drop_first() == v@.subrange(i + 1, n as int));
        i += 1;
    }
    assert(trim_start(v@) == v@.subrange(i as int, n as int));
    let mut j: usize = n;
    while i < j && is_white_space(v[j - 1])
        invariant
            n == v.len(),
            i <= j <= n,
            trim_end(v@.subrange(i as int, n as int)) == trim_end(v@.subrange(i as int, j as int)),
        decreases j,
    {
        assert(v@.subrange(i as int, j as int).drop_last() == v@.subrange(i as int, j - 1));
        j -= 1;
    }
    let r = string_of(slice_of(&v, i, j));
    r
}

/// The part of a vector from `i` up to `j`.
pub fn slice_of<T>(v: &Vec<T>, i: usize, j: usize) -> (r: &[T])
    requires
        i <= j <= v.len(),
    ensures
        r@ == v@.subrange(i as int, j as int),
{
    vstd::slice::slice_subrange(v.as_slice(), i, j)
}

/// The text with its ASCII letters made small.
pub fn to_ascii_lower(s: &str) -> (r: String)
    ensures
        r@ == ascii_lower(s@),
{
    let mut r = String::new();
    for c in it: s.chars()
        invariant
            r@ == ascii_lower(it.seq().take(it.index() as int)),
            it.seq() == s@,
    {
        let l: char = if 'A' <= c && c <= 'Z' { (c as u8 + 32u8) as char } else { c };
        r.push(l);
        assert(r@ == ascii_lower(it.seq().take(it.index() as int + 1)));
    }
    assert(s@.take(s@.len() as int) == s@);
    r
}

/// The text with its ASCII letters made capital.
pub fn to_ascii_upper(s: &str) -> (r: String)
    ensures
        r@ == ascii_upper(s@),
{
    let mut r = String::new();
    for c in it: s.chars()
        invariant
            r@ == ascii_upper(it.seq().take(it.index() as int)),
            it.seq() == s@,
    {
        let l: char = if 'a' <= c && c <= 'z' { (c as u8 - 32u8) as char } else { c };
        r.push(l);
        assert(r@ == ascii_upper(it.seq().take(it.index() as int + 1)));
    }
    assert(s@.take(s@.len() as int) == s@);
    r
}

/// Whether `pat` stands in `s` at position `i`.
pub fn occurs(s: &[char], pat: &[char], i: usize) -> (r: bool)
    ensures
        r == occurs_at(s@, pat@, i as int),
{
    if pat.len() > s.len() || i > s.len() - pat.len() {
        return false;
    }
    let mut k: usize = 0;
    while k < pat.len()
        invariant
            k <= pat.len(),
            i + pat.len() <= s.len(),
            forall|j: int| 0 <= j < k ==> s@[i + j] == pat@[j],
        decreases pat.len() - k,
    {
        if s[i + k] != pat[k] {
            assert(s@.subrange(i as int, i + pat@.len())[k as int] != pat@[k as int]);
            return false;
        }
        k += 1;
    }
    assert(s@.subrange(i as int, i + pat@.len()) == pat@);
    true
}

/// The first position at which `pat` stands in `s`.
pub fn find(s: &[char], pat: &[char]) -> (r: Option<usize>)
    ensures
        match r {
            Some(i) => find_text(s@, pat@) == Some(i as int) && i + pat@.len() <= s@.len(),
            None => find_text(s@, pat@) is None,
        },
{
    find_after(s, pat, 0)
}

/// The first position at or after `from` at which `pat` stands in `s`.
pub fn find_after(s: &[char], pat: &[char], from: usize) -> (r: Option<usize>)
    ensures
        match r {
            Some(i) => find_from(s@, pat@, from as int) == Some(i as int) && i + pat@.len()
                <= s@.len(),
            None => find_from(s@, pat@, from as int) is None,
        },
{
    if pat.len() > s.len() {
        return None;
    }
    let last = s.len() - pat.len();
    let mut i: usize = from;
    while i <= last
        invariant
            last == s.len() - pat.len(),
            find_from(s@, pat@, from as int) == find_from(s@, pat@, i as int),
        decreases last + 1 - i,
    {
        if occurs(s, pat, i) {
            return Some(i);
        }
        if i == last {
            assert(find_from(s@, pat@, i + 1) is None);
            return None;
        }
        i += 1;
    }
    None
}

/// Whether `pat` stands somewhere in `s`.
pub fn contains(s: &str, pat: &str) -> (r: bool)
    ensures
        r == contains_text(s@, pat@),
{
    let x = chars_of(s);
    let y = chars_of(pat);
    let found = find(x.as_slice(), y.as_slice());
    proof {
        find_from_is_first(s@, pat@, 0);
        if found is None {
            assert forall|j: int| !occurs_at(s@, pat@, j) by {}
        }
    }
    found.is_some()
}

/// Whether `s` begins with `pat`.
pub fn starts_with(s: &str, pat: &str) -> (r: bool)
    ensures
        r == begins_with(s@, pat@),
{
    let x = chars_of(s);
    let y = chars_of(pat);
    occurs(x.as_slice(), y.as_slice(), 0)
}

/// The first alphanumeric character at or after `from`.
pub fn next_alphanumeric(s: &[char], from: usize) -> (r: Option<char>)
    requires
        from <= s.len(),
    ensures
        r == first_alphanumeric(s@.skip(from as int)),
{
    let mut i = from;
    while i < s.len()
        invariant
            from <= i <= s.len(),
            first_alphanumeric(s@.skip(from as int)) == first_alphanumeric(s@.skip(i as int)),
        decreases s.len() - i,
    {
        if is_alphanumeric(s[i]) {
            return Some(s[i]);
        }
        assert(s@.skip(i as int).drop_first() == s@.skip(i + 1));
        i += 1;
    }
    None
}

/// The first alphabetic character at or after `from`.
pub fn next_alphabetic(s: &[char], from: usize) -> (r: Option<char>)
    requires
        from <= s.len(),
    ensures
        r == first_alphabetic(s@.skip(from as int)),
{
    let mut i = from;
    while i < s.len()
        invariant
            from <= i <= s.len(),
            first_alphabetic(s@.skip(from as int)) == first_alphabetic(s@.skip(i as int)),
        decreases s.len() - i,
    {
        if is_alphabetic(s[i]) {
            return Some(s[i]);
        }
        assert(s@.skip(i as int).drop_first() == s@.skip(i + 1));
        i += 1;
    }
    None
}

/// Making letters capital keeps every character in its place: a small letter of ASCII moves to
/// the capital letter 32 places before it, and every other character stays as it is.
pub proof fn capitals_keep_the_text(s: Seq<char>)
    ensures
        ascii_upper(s).len() == s.len(),
        forall|i: int|
            0 <= i < s.len() ==> if 97 <= s[i] as u32 <= 122 {
                (#[trigger] ascii_upper(s)[i]) as u32 + 32 == s[i] as u32
            } else {
                ascii_upper(s)[i] == s[i]
            },
{
}

/// Making letters small keeps every character in its place: a capital letter of ASCII moves to
/// the small letter 32 places behind it, and every other character stays as it is.
pub proof fn small_letters_keep_the_text(s: Seq<char>)
    ensures
        ascii_lower(s).len() == s.len(),
        forall|i: int|
            0 <= i < s.len() ==> if 65 <= s[i] as u32 <= 90 {
                (#[trigger] ascii_lower(s)[i]) as u32 == s[i] as u32 + 32
            } else {
                ascii_lower(s)[i] == s[i]
            },
{
}

/// Trimming takes nothing but white space, and takes all of it: the trimmed text stands in the
/// text, only white space stands before and behind it, and it neither begins nor ends with any.
pub proof fn trimming_takes_the_white_space_around(s: Seq<char>)
    ensures
        exists|i: int, j: int|
            {
                &&& 0 <= i <= j <= s.len()
                &&& trimmed(s) == #[trigger] s.subrange(i, j)
                &&& forall|k: int| 0 <= k < i || j <= k < s.len() ==> white_space(#[trigger] s[k])
            },
        trimmed(s).len() > 0 ==> !white_space(trimmed(s)[0]) && !white_space(
            trimmed(s)[trimmed(s).len() - 1],
        ),
{
    let i = trim_start_cuts(s);
    let rest = trim_start(s);
    let j = trim_end_cuts(rest);
    assert(trimmed(s) == s.subrange(i, i + j));
    assert forall|k: int| 0 <= k < i || i + j <= k < s.len() implies white_space(
        #[trigger] s[k],
    ) by {
        if k >= i + j {
            assert(s[k] == rest[k - i]);
        }
    }
}

proof fn trim_start_cuts(s: Seq<char>) -> (i: int)
    ensures
        0 <= i <= s.len(),
        trim_start(s) == s.subrange(i, s.len() as int),
        forall|k: int| 0 <= k < i ==> white_space(#[trigger] s[k]),
        i < s.len() ==> !white_space(s[i]),
    decreases s.len(),
{
    if s.len() > 0 && white_space(s[0]) {
        let i = trim_start_cuts(s.drop_first());
        assert forall|k: int| 0 <= k < i + 1 implies white_space(#[trigger] s[k]) by {
            if k > 0 {
                assert(s[k] == s.drop_first()[k - 1]);
            }
        }
        i + 1
    } else {
        0
    }
}

proof fn trim_end_cuts(s: Seq<char>) -> (j: int)
    ensures
        0 <= j <= s.len(),
        trim_end(s) == s.subrange(0, j),
        forall|k: int| j <= k < s.len() ==> white_space(#[trigger] s[k]),
        j > 0 ==> !white_space(s[j - 1]),
    decreases s.len(),
{
    if s.len() > 0 && white_space(s.last()) {
        let j = trim_end_cuts(s.drop_last());
        assert forall|k: int| j <= k < s.len() implies white_space(#[trigger] s[k]) by {
            if k < s.len() - 1 {
                assert(s[k] == s.drop_last()[k]);
            }
        }
        j
    } else {
        s.len() as int
    }
}

/// The first letter of a text: no letter stands before it, and there is none only where no
/// character is a letter.
pub proof fn the_first_letter_is_first(s: Seq<char>)
    ensures
        match first_alphabetic(s) {
            Some(c) => exists|q: int|
                0 <= q < s.len() && #[trigger] s[q] == c && alphabetic(c) && forall|j: int|
                    0 <= j < q ==> !alphabetic(#[trigger] s[j]),
            None => forall|j: int| 0 <= j < s.len() ==> !alphabetic(#[trigger] s[j]),
        },
    decreases s.len(),
{
    if s.len() > 0 {
        if alphabetic(s[0]) {
            assert(s[0] == first_alphabetic(s)->0);
        } else {
            let rest = s.drop_first();
            the_first_letter_is_first(rest);
            match first_alphabetic(s) {
                Some(c) => {
                    let q = choose|q: int|
                        0 <= q < rest.len() && #[trigger] rest[q] == c && alphabetic(c)
                            && forall|j: int| 0 <= j < q ==> !alphabetic(#[trigger] rest[j]);
                    assert(s[q + 1] == c);
                    assert forall|j: int| 0 <= j < q + 1 implies !alphabetic(#[trigger] s[j]) by {
                        if j > 0 {
                            assert(s[j] == rest[j - 1]);
                        }
                    }
                },
                None => {
                    assert forall|j: int| 0 <= j < s.len() implies !alphabetic(#[trigger] s[j]) by {
                        if j > 0 {
                            assert(s[j] == rest[j - 1]);
                        }
                    }
                },
            }
        }
    }
}

/// The first letter or digit of a text: none stands before it, and there is none only where no
/// character is one.
pub proof fn the_first_letter_or_digit_is_first(s: Seq<char>)
    ensures
        match first_alphanumeric(s) {
            Some(c) => exists|q: int|
                0 <= q < s.len() && #[trigger] s[q] == c && alphanumeric(c) && forall|j: int|
                    0 <= j < q ==> !alphanumeric(#[trigger] s[j]),
            None => forall|j: int| 0 <= j < s.len() ==> !alphanumeric(#[trigger] s[j]),
        },
    decreases s.len(),
{
    if s.len() > 0 {
        if alphanumeric(s[0]) {
            assert(s[0] == first_alphanumeric(s)->0);
        } else {
            let rest = s.drop_first();
            the_first_letter_or_digit_is_first(rest);
            match first_alphanumeric(s) {
                Some(c) => {
                    let q = choose|q: int|
                        0 <= q < rest.len() && #[trigger] rest[q] == c && alphanumeric(c)
                            && forall|j: int| 0 <= j < q ==> !alphanumeric(#[trigger] rest[j]);
                    assert(s[q + 1] == c);
                    assert forall|j: int| 0 <= j < q + 1 implies !alphanumeric(
                        #[trigger] s[j],
                    ) by {
                        if j > 0 {
                            assert(s[j] == rest[j - 1]);
                        }
                    }
                },
                None => {
                    assert forall|j: int| 0 <= j < s.len() implies !alphanumeric(
                        #[trigger] s[j],
                    ) by {
                        if j > 0 {
                            assert(s[j] == rest[j - 1]);
                        }
                    }
                },
            }
        }
    }
}

/// `text` holds `word` at position `p`.
pub open spec fn stands_at(text: Seq<char>, word: Seq<char>, p: int) -> bool {
    0 <= p && p + word.len() <= text.len() && forall|k: int|
        0 <= k < word.len() ==> text[p + k] == #[trigger] word[k]
}

/// `text` holds `word` at position `p`, and nowhere between `from` and there.
pub open spec fn stands_first_from(text: Seq<char>, word: Seq<char>, from: int, p: int) -> bool {
    from <= p && stands_at(text, word, p) && forall|j: int|
        from <= j < p ==> !#[trigger] stands_at(text, word, j)
}

/// `text` does not hold `word` at `from` or behind.
pub open spec fn nowhere_from(text: Seq<char>, word: Seq<char>, from: int) -> bool {
    forall|j: int| from <= j ==> !#[trigger] stands_at(text, word, j)
}

/// `text` holds `word` at position `p` and nowhere before.
pub open spec fn stands_first_at(text: Seq<char>, word: Seq<char>, p: int) -> bool {
    stands_first_from(text, word, 0, p)
}

/// `text` does not hold `word`.
pub open spec fn nowhere_in(text: Seq<char>, word: Seq<char>) -> bool {
    nowhere_from(text, word, 0)
}

proof fn standing_is_occurring(text: Seq<char>, word: Seq<char>, p: int)
    ensures
        stands_at(text, word, p) == occurs_at(text, word, p),
{
    if 0 <= p && p + word.len() <= text.len() {
        let part = text.subrange(p, p + word.len());
        if stands_at(text, word, p) {
            assert forall|k: int| 0 <= k < word.len() implies part[k] == word[k] by {
                assert(text[p + k] == word[k]);
            }
            assert(part =~= word);
        }
        if part == word {
            assert forall|k: int| 0 <= k < word.len() implies text[p + k] == #[trigger] word[k] by {
                assert(part[k] == word[k]);
            }
        }
    }
}

/// A search from a position finds where a word stands first from there on, and nothing where it
/// does not stand behind.
pub proof fn found_where_it_stands_first_from(
    text: Seq<char>,
    word: Seq<char>,
    from: int,
    p: int,
)
    requires
        0 <= from,
    ensures
        stands_first_from(text, word, from, p) ==> find_from(text, word, from) == Some(p),
        nowhere_from(text, word, from) ==> find_from(text, word, from) is None,
{
    find_from_is_first(text, word, from);
    standing_is_occurring(text, word, p);
    if let Some(i) = find_from(text, word, from) {
        standing_is_occurring(text, word, i);
        if stands_first_from(text, word, from, p) {
            assert(!(i < p)) by {
                if i < p {
                    assert(!stands_at(text, word, i));
                }
            }
        }
    } else if stands_first_from(text, word, from, p) {
        assert(!occurs_at(text, word, p));
    }
}

/// A search finds the position at which a word stands first, and nothing where it is nowhere.
pub proof fn found_where_it_stands_first(text: Seq<char>, word: Seq<char>, p: int)
    ensures
        stands_first_at(text, word, p) ==> find_text(text, word) == Some(p),
        nowhere_in(text, word) ==> find_text(text, word) is None,
{
    found_where_it_stands_first_from(text, word, 0, p);
}

/// A text is said to contain a word, or to begin with it, exactly where it does.
pub proof fn containing_is_standing_somewhere(text: Seq<char>, word: Seq<char>)
    ensures
        contains_text(text, word) <==> exists|p: int| #[trigger] stands_at(text, word, p),
        begins_with(text, word) <==> stands_at(text, word, 0),
{
    standing_is_occurring(text, word, 0);
    if contains_text(text, word) {
        let p = choose|p: int| occurs_at(text, word, p);
        standing_is_occurring(text, word, p);
        assert(stands_at(text, word, p));
    }
    if exists|p: int| #[trigger] stands_at(text, word, p) {
        let p = choose|p: int| #[trigger] stands_at(text, word, p);
        standing_is_occurring(text, word, p);
        assert(occurs_at(text, word, p));
    }
}

/// The letters of ASCII are the 26 capitals from 65 on and the 26 small letters from 97 on, and a
/// text is ASCII where each of its characters is below 128.
pub proof fn letters_have_their_codes(c: char, s: Seq<char>)
    ensures
        is_ascii_letter(c) <==> 65 <= c as u32 <= 90 || 97 <= c as u32 <= 122,
        is_ascii_char(c) <==> (c as u32) < 128,
        all_ascii(s.push(c)) <==> all_ascii(s) && (c as u32) < 128,
        all_ascii(Seq::empty()),
{
    let t = s.push(c);
    if all_ascii(t) {
        assert(is_ascii_char(t[s.len() as int]));
        assert forall|i: int| 0 <= i < s.len() implies is_ascii_char(#[trigger] s[i]) by {
            assert(s[i] == t[i]);
        }
    }
}

} // verus!
