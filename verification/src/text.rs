//! Whitespace, trimming and message text.
use vstd::prelude::*;

verus! {

/// The characters with the Unicode `White_Space` property, the whitespace that
/// `str::trim` removes.
pub open spec fn is_unicode_whitespace(c: char) -> bool {
    let u = c as u32;
    ||| 0x09 <= u <= 0x0D
    ||| u == 0x20
    ||| u == 0x85
    ||| u == 0xA0
    ||| u == 0x1680
    ||| 0x2000 <= u <= 0x200A
    ||| u == 0x2028
    ||| u == 0x2029
    ||| u == 0x202F
    ||| u == 0x205F
    ||| u == 0x3000
}

/// `s` without its leading whitespace.
pub open spec fn trim_start_chars(s: Seq<char>) -> Seq<char>
    decreases s.len(),
{
    if s.len() > 0 && is_unicode_whitespace(s[0]) {
        trim_start_chars(s.drop_first())
    } else {
        s
    }
}

/// `s` without its trailing whitespace.
pub open spec fn trim_end_chars(s: Seq<char>) -> Seq<char>
    decreases s.len(),
{
    if s.len() > 0 && is_unicode_whitespace(s.last()) {
        trim_end_chars(s.drop_last())
    } else {
        s
    }
}

/// `s` without its leading and trailing whitespace.
pub open spec fn trim_chars(s: Seq<char>) -> Seq<char> {
    trim_end_chars(trim_start_chars(s))
}

/// Every character of `s` is whitespace (so is the empty string).
pub open spec fn is_all_whitespace(s: Seq<char>) -> bool {
    forall|i: int| 0 <= i < s.len() ==> is_unicode_whitespace(#[trigger] s[i])
}

proof fn lemma_trim_end_empty(s: Seq<char>)
    ensures
        trim_end_chars(s).len() == 0 <==> is_all_whitespace(s),
    decreases s.len(),
{
    if s.len() > 0 {
        lemma_trim_end_empty(s.drop_last());
        if is_unicode_whitespace(s.last()) {
            if is_all_whitespace(s.drop_last()) {
                assert forall|i: int| 0 <= i < s.len() implies is_unicode_whitespace(
                    #[trigger] s[i],
                ) by {
                    if i < s.len() - 1 {
                        assert(s[i] == s.drop_last()[i]);
                    }
                }
            } else {
                let j = choose|j: int|
                    0 <= j < s.drop_last().len() && !is_unicode_whitespace(
                        #[trigger] s.drop_last()[j],
                    );
                assert(s[j] == s.drop_last()[j]);
            }
        } else {
            assert(!is_unicode_whitespace(s[s.len() - 1]));
        }
    }
}

/// Trimming leaves nothing exactly when the text is all whitespace.
pub proof fn lemma_trim_empty_iff_all_whitespace(s: Seq<char>)
    ensures
        trim_chars(s).len() == 0 <==> is_all_whitespace(s),
    decreases s.len(),
{
    lemma_trim_end_empty(trim_start_chars(s));
    if s.len() > 0 {
        lemma_trim_empty_iff_all_whitespace(s.drop_first());
        if is_unicode_whitespace(s[0]) {
            lemma_trim_end_empty(trim_start_chars(s.drop_first()));
            if is_all_whitespace(s.drop_first()) {
                assert forall|i: int| 0 <= i < s.len() implies is_unicode_whitespace(
                    #[trigger] s[i],
                ) by {
                    if i > 0 {
                        assert(s[i] == s.drop_first()[i - 1]);
                    }
                }
            } else {
                let j = choose|j: int|
                    0 <= j < s.drop_first().len() && !is_unicode_whitespace(
                        #[trigger] s.drop_first()[j],
                    );
                assert(s[j + 1] == s.drop_first()[j]);
            }
        } else {
            assert(trim_start_chars(s) == s);
            lemma_trim_end_empty(s);
            assert(!is_unicode_whitespace(s[0]));
        }
    }
}

/// `str::trim`: the text with leading and trailing whitespace removed, where
/// whitespace is the Unicode `White_Space` property. The contract states exactly
/// that, over `trim_chars`.
#[verifier::external_body]
fn trim_str<'a>(s: &'a str) -> (t: &'a str)
    ensures
        t@ == trim_chars(s@),
{
    s.trim()
}

/// An owned copy of `s` with its leading and trailing whitespace removed.
pub fn trimmed(s: &str) -> (r: String)
    ensures
        r@ == trim_chars(s@),
{
    trim_str(s).to_owned()
}

/// `prefix` immediately followed by `detail`.
pub fn join_message(prefix: &str, detail: &str) -> (m: String)
    ensures
        m@ == prefix@ + detail@,
{
    let mut m = prefix.to_owned();
    m.append(detail);
    m
}

/// The bytes that `u8::is_ascii_whitespace` accepts: space, tab, line feed,
/// form feed and carriage return.
pub open spec fn is_ascii_whitespace_byte(b: u8) -> bool {
    b == 0x20u8 || b == 0x09u8 || b == 0x0Au8 || b == 0x0Cu8 || b == 0x0Du8
}

/// Every byte of `s` is ASCII whitespace (so is the empty sequence).
pub open spec fn is_blank(s: Seq<u8>) -> bool {
    forall|i: int| 0 <= i < s.len() ==> is_ascii_whitespace_byte(#[trigger] s[i])
}

/// Whether every byte of `bytes` is ASCII whitespace.
pub fn all_ascii_whitespace(bytes: &[u8]) -> (r: bool)
    ensures
        r == is_blank(bytes@),
{
    let n: usize = bytes.len();
    let mut i: usize = 0;
    while i < n
        invariant
            n == bytes@.len(),
            i <= n,
            forall|j: int| 0 <= j < i ==> is_ascii_whitespace_byte(#[trigger] bytes@[j]),
        decreases n - i,
    {
        let b: u8 = bytes[i];
        if !(b == 0x20u8 || b == 0x09u8 || b == 0x0Au8 || b == 0x0Cu8 || b == 0x0Du8) {
            assert(!is_ascii_whitespace_byte(bytes@[i as int]));
            return false;
        }
        i += 1;
    }
    true
}

} // verus!
