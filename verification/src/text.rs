//! Character-level string utilities and the single-word classification that
//! decides whether a dictionary lookup is attempted for extracted text.

use vstd::prelude::*;

verus! {

/// The Unicode white-space code points, as the classification understands them.
pub open spec fn is_space_char(c: char) -> bool {
    let u = c as u32;
    u == 0x20 || (0x09 <= u && u <= 0x0D) || u == 0x85 || u == 0xA0 || u == 0x1680 || (0x2000
        <= u && u <= 0x200A) || u == 0x2028 || u == 0x2029 || u == 0x202F || u == 0x205F || u
        == 0x3000
}

/// Executable form of `is_space_char`.
pub fn is_space(c: char) -> (r: bool)
    ensures
        r == is_space_char(c),
{
    let u = c as u32;
    u == 0x20 || (0x09 <= u && u <= 0x0D) || u == 0x85 || u == 0xA0 || u == 0x1680 || (0x2000
        <= u && u <= 0x200A) || u == 0x2028 || u == 0x2029 || u == 0x202F || u == 0x205F || u
        == 0x3000
}

/// `s` with its leading white space removed.
pub open spec fn trim_left_spec(s: Seq<char>) -> Seq<char>
    decreases s.len(),
{
    if s.len() > 0 && is_space_char(s[0]) {
        trim_left_spec(s.drop_first())
    } else {
        s
    }
}

/// `s` with its trailing white space removed.
pub open spec fn trim_right_spec(s: Seq<char>) -> Seq<char>
    decreases s.len(),
{
    if s.len() > 0 && is_space_char(s.last()) {
        trim_right_spec(s.drop_last())
    } else {
        s
    }
}

/// `s` with white space removed from both ends.
pub open spec fn trim_spec(s: Seq<char>) -> Seq<char> {
    trim_right_spec(trim_left_spec(s))
}

proof fn lemma_trim_left_at(s: Seq<char>, k: int)
    requires
        0 <= k <= s.len(),
        forall|m: int| 0 <= m < k ==> is_space_char(s[m]),
        k == s.len() || !is_space_char(s[k]),
    ensures
        trim_left_spec(s) =~= s.subrange(k, s.len() as int),
    decreases k,
{
    if k == 0 {
        if s.len() == 0 || !is_space_char(s[0]) {
            assert(trim_left_spec(s) =~= s.subrange(0, s.len() as int));
        }
    } else {
        lemma_trim_left_at(s.drop_first(), k - 1);
        assert(s.drop_first().subrange(k - 1, s.drop_first().len() as int) =~= s.subrange(
            k,
            s.len() as int,
        ));
    }
}

proof fn lemma_trim_right_at(s: Seq<char>, k: int)
    requires
        0 <= k <= s.len(),
        forall|m: int| k <= m < s.len() ==> is_space_char(s[m]),
        k == 0 || !is_space_char(s[k - 1]),
    ensures
        trim_right_spec(s) =~= s.subrange(0, k),
    decreases s.len() - k,
{
    if k == s.len() {
        if s.len() == 0 || !is_space_char(s.last()) {
            assert(trim_right_spec(s) =~= s.subrange(0, k));
        }
    } else {
        lemma_trim_right_at(s.drop_last(), k);
        assert(s.drop_last().subrange(0, k) =~= s.subrange(0, k));
    }
}

/// Both-ends trimming lands on the sub-range between the first and last
/// non-space characters.
pub proof fn lemma_trim_bounds(s: Seq<char>, i: int, j: int)
    requires
        0 <= i <= j <= s.len(),
        forall|m: int| 0 <= m < i ==> is_space_char(s[m]),
        forall|m: int| j <= m < s.len() ==> is_space_char(s[m]),
        i == s.len() || !is_space_char(s[i]),
        j == i || !is_space_char(s[j - 1]),
    ensures
        trim_spec(s) =~= s.subrange(i, j),
{
    if i == s.len() {
        lemma_trim_left_at(s, i);
        assert(trim_left_spec(s) =~= Seq::<char>::empty());
        assert(trim_spec(s) =~= s.subrange(i, j));
    } else {
        lemma_trim_left_at(s, i);
        let t = s.subrange(i, s.len() as int);
        lemma_trim_right_at(t, j - i);
        assert(t.subrange(0, j - i) =~= s.subrange(i, j));
    }
}

/// Collects the characters of a string slice into a vector.
pub fn to_chars(s: &str) -> (v: Vec<char>)
    ensures
        v@ == s@,
{
    let n = s.unicode_len();
    let mut v: Vec<char> = Vec::new();
    let mut k: usize = 0;
    while k < n
        invariant
            k <= n,
            n == s@.len(),
            v@ == s@.subrange(0, k as int),
        decreases n - k,
    {
        v.push(s.get_char(k));
        assert(v@ =~= s@.subrange(0, k + 1 as int));
        k += 1;
    }
    assert(v@ =~= s@);
    v
}

/// Relies on `String::push`: appends the character to the end of the string.
pub assume_specification[ String::push ](s: &mut String, c: char)
    ensures
        final (s)@ == old(s)@.push(c),
;

/// Builds a string from a vector of characters.
pub fn chars_to_string(v: &Vec<char>) -> (s: String)
    ensures
        s@ == v@,
{
    let mut s = String::new();
    let mut k: usize = 0;
    while k < v.len()
        invariant
            k <= v@.len(),
            s@ == v@.subrange(0, k as int),
        decreases v@.len() - k,
    {
        s.push(v[k]);
        assert(s@ =~= v@.subrange(0, k + 1 as int));
        k += 1;
    }
    assert(s@ =~= v@);
    s
}

/// Trims white space from both ends of a string.
pub fn trim(s: &str) -> (r: String)
    ensures
        r@ == trim_spec(s@),
{
    let n = s.unicode_len();
    let mut i: usize = 0;
    while i < n && is_space(s.get_char(i))
        invariant
            i <= n,
            n == s@.len(),
            forall|m: int| 0 <= m < i ==> is_space_char(s@[m]),
        decreases n - i,
    {
        i += 1;
    }
    let mut j: usize = n;
    while j > i && is_space(s.get_char(j - 1))
        invariant
            i <= j <= n,
            n == s@.len(),
            forall|m: int| j <= m < n ==> is_space_char(s@[m]),
        decreases j,
    {
        j -= 1;
    }
    proof {
        lemma_trim_bounds(s@, i as int, j as int);
    }
    let sub = s.substring_char(i, j);
    let r = String::from_str(sub);
    proof {
        assert(r@ =~= trim_spec(s@));
    }
    r
}

/// The character mapped to lower case when it is an ASCII capital letter,
/// given as a code point; other characters are unchanged.
pub open spec fn lower_u(c: char) -> u32 {
    let u = c as u32;
    if 0x41 <= u && u <= 0x5A {
        (u + 32) as u32
    } else {
        u
    }
}

/// Case-insensitive character comparison over ASCII letters.
pub open spec fn ci_eq(a: char, b: char) -> bool {
    lower_u(a) == lower_u(b)
}

/// Executable form of `lower_u`.
pub fn lower_code(c: char) -> (r: u32)
    ensures
        r == lower_u(c),
{
    let u = c as u32;
    if 65 <= u && u <= 90 {
        u + 32
    } else {
        u
    }
}

/// Copies the characters of `v` between `a` and `b` into a fresh vector.
pub fn copy_range(v: &Vec<char>, a: usize, b: usize) -> (r: Vec<char>)
    requires
        a <= b <= v@.len(),
    ensures
        r@ == v@.subrange(a as int, b as int),
{
    let mut r: Vec<char> = Vec::new();
    let mut k: usize = a;
    while k < b
        invariant
            a <= k <= b <= v@.len(),
            r@ == v@.subrange(a as int, k as int),
        decreases b - k,
    {
        r.push(v[k]);
        assert(r@ =~= v@.subrange(a as int, k + 1 as int));
        k += 1;
    }
    r
}

/// Trims white space from both ends of the characters of `v` between `a` and
/// `b`.
pub fn trim_in_range(v: &Vec<char>, a: usize, b: usize) -> (r: Vec<char>)
    requires
        a <= b <= v@.len(),
    ensures
        r@ == trim_spec(v@.subrange(a as int, b as int)),
{
    let mut i: usize = a;
    while i < b && is_space(v[i])
        invariant
            a <= i <= b <= v@.len(),
            forall|m: int| a <= m < i ==> is_space_char(v@[m]),
        decreases b - i,
    {
        i += 1;
    }
    let mut j: usize = b;
    while j > i && is_space(v[j - 1])
        invariant
            a <= i <= j <= b <= v@.len(),
            forall|m: int| j <= m < b ==> is_space_char(v@[m]),
        decreases j,
    {
        j -= 1;
    }
    let r = copy_range(v, i, j);
    proof {
        let s = v@.subrange(a as int, b as int);
        lemma_trim_bounds(s, i - a, j - a);
        assert(s.subrange(i - a, j - a) =~= v@.subrange(i as int, j as int));
    }
    r
}

/// The character mapped to upper case when it is an ASCII small letter;
/// other characters are unchanged.
pub open spec fn upper_char(c: char) -> char {
    let u = c as u32;
    if 97 <= u && u <= 122 {
        (((u - 32) as u8) as char)
    } else {
        c
    }
}

/// `s` with its ASCII small letters mapped to upper case.
pub open spec fn upper_view(s: Seq<char>) -> Seq<char> {
    Seq::new(s.len(), |i: int| upper_char(s[i]))
}

/// Maps ASCII small letters to upper case, leaving other characters alone.
pub fn to_ascii_upper(s: &str) -> (r: String)
    ensures
        r@ == upper_view(s@),
{
    let n = s.unicode_len();
    let mut r = String::new();
    let mut k: usize = 0;
    while k < n
        invariant
            k <= n,
            n == s@.len(),
            r@ == upper_view(s@).subrange(0, k as int),
        decreases n - k,
    {
        let c = s.get_char(k);
        let code = c as u32;
        let up: char = if 97 <= code && code <= 122 {
            ((code - 32) as u8) as char
        } else {
            c
        };
        r.push(up);
        assert(r@ =~= upper_view(s@).subrange(0, k + 1 as int));
        k += 1;
    }
    proof {
        assert(r@ =~= upper_view(s@));
    }
    r
}

/// `t` occurs in `s` starting at position `i`.
pub open spec fn has_sub_at(s: Seq<char>, t: Seq<char>, i: int) -> bool {
    0 <= i && i + t.len() <= s.len() && s.subrange(i, i + t.len() as int) == t
}

/// `t` occurs somewhere in `s`.
pub open spec fn contains_sub(s: Seq<char>, t: Seq<char>) -> bool {
    exists|i: int| has_sub_at(s, t, i)
}

/// Compares `t` against the characters of `v` starting at `i`.
fn match_at(v: &Vec<char>, t: &Vec<char>, i: usize) -> (r: bool)
    requires
        i + t@.len() <= v@.len(),
    ensures
        r == has_sub_at(v@, t@, i as int),
{
    let n = v.len();
    let mut j: usize = 0;
    while j < t.len()
        invariant
            j <= t@.len(),
            i + t@.len() <= v@.len(),
            n == v@.len(),
            forall|m: int| 0 <= m < j ==> v@[i + m] == t@[m],
        decreases t@.len() - j,
    {
        if v[i + j] != t[j] {
            proof {
                assert(v@.subrange(i as int, i + t@.len() as int)[j as int] == v@[i + j]);
            }
            return false;
        }
        j += 1;
    }
    proof {
        assert(v@.subrange(i as int, i + t@.len() as int) =~= t@);
    }
    true
}

/// Decides whether `t` occurs in `v`.
pub fn chars_contain(v: &Vec<char>, t: &Vec<char>) -> (r: bool)
    ensures
        r == contains_sub(v@, t@),
{
    if t.len() == 0 {
        proof {
            assert(v@.subrange(0, 0) =~= t@);
            assert(has_sub_at(v@, t@, 0));
        }
        return true;
    }
    if t.len() > v.len() {
        return false;
    }
    let vl = v.len();
    let last = vl - t.len();
    let mut i: usize = 0;
    while i <= last
        invariant
            1 <= t@.len(),
            vl == v@.len(),
            last == vl - t@.len(),
            i <= last + 1,
            forall|k: int| 0 <= k < i ==> !has_sub_at(v@, t@, k),
        decreases last + 1 - i,
    {
        if match_at(v, t, i) {
            return true;
        }
        i += 1;
    }
    false
}

/// Decides whether the string `needle` occurs in the string `hay`.
pub fn str_contains_str(hay: &str, needle: &str) -> (r: bool)
    ensures
        r == contains_sub(hay@, needle@),
{
    let h = to_chars(hay);
    let n = to_chars(needle);
    chars_contain(&h, &n)
}

/// Decides string equality, stated over the views.
pub fn str_eq(a: &str, b: &str) -> (r: bool)
    ensures
        r == (a@ == b@),
{
    let n = a.unicode_len();
    if n != b.unicode_len() {
        return false;
    }
    let mut k: usize = 0;
    while k < n
        invariant
            k <= n,
            n == a@.len(),
            n == b@.len(),
            forall|m: int| 0 <= m < k ==> a@[m] == b@[m],
        decreases n - k,
    {
        if a.get_char(k) != b.get_char(k) {
            return false;
        }
        k += 1;
    }
    proof {
        assert(a@ =~= b@);
    }
    true
}

/// A token is a single word when, after trimming, it holds no white space and
/// fewer than fifty characters; anything else is treated as a phrase.
pub open spec fn is_word_spec(s: Seq<char>) -> bool {
    let t = trim_spec(s);
    t.len() < 50 && (forall|m: int| 0 <= m < t.len() ==> !is_space_char(t[m]))
}

/// Decides whether extracted text is a single dictionary-searchable word.
pub fn is_single_word(text: &str) -> (r: bool)
    ensures
        r == is_word_spec(text@),
{
    let t = trim(text);
    let ts = t.as_str();
    let n = ts.unicode_len();
    if n >= 50 {
        return false;
    }
    let mut k: usize = 0;
    while k < n
        invariant
            k <= n,
            n == ts@.len(),
            ts@ == trim_spec(text@),
            n < 50,
            forall|m: int| 0 <= m < k ==> !is_space_char(ts@[m]),
        decreases n - k,
    {
        if is_space(ts.get_char(k)) {
            return false;
        }
        k += 1;
    }
    true
}

/// The classification that drives every downstream decision: a lone token is
/// looked up in the dictionary, a phrase is only machine translated.
#[derive(PartialEq, Eq, Structural, Clone, Copy, Debug)]
pub enum Classification {
    Word,
    Phrase,
}

/// Spec-level classification of extracted text.
pub open spec fn classification_spec(s: Seq<char>) -> Classification {
    if is_word_spec(s) {
        Classification::Word
    } else {
        Classification::Phrase
    }
}

/// Classifies extracted text as a single word or a phrase.
pub fn classify(text: &str) -> (c: Classification)
    ensures
        c == classification_spec(text@),
{
    if is_single_word(text) {
        Classification::Word
    } else {
        Classification::Phrase
    }
}

/// A string without white space and shorter than fifty characters is
/// classified as a word; a string whose trimmed form is fifty characters or
/// longer, or still holds white space, is classified as a phrase. (A string
/// that only carries leading or trailing white space around a word is still a
/// word: classification looks at the trimmed form.)
pub proof fn lemma_word_classification(s: Seq<char>)
    ensures
        (s.len() < 50 && (forall|i: int| 0 <= i < s.len() ==> !is_space_char(#[trigger] s[i])))
            ==> classification_spec(s) == Classification::Word,
        (trim_spec(s).len() >= 50 || (exists|i: int|
            0 <= i < trim_spec(s).len() && is_space_char(#[trigger] trim_spec(s)[i])))
            ==> classification_spec(s) == Classification::Phrase,
{
    if s.len() < 50 && (forall|i: int| 0 <= i < s.len() ==> !is_space_char(s[i])) {
        lemma_trim_bounds(s, 0, s.len() as int);
        assert(trim_spec(s) =~= s);
    }
}

} // verus!
