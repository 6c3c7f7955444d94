//! Raw `Name:Value` header strings and their split form.
use vstd::prelude::*;

verus! {

/// A header split into its name and value.
#[derive(Debug)]
pub struct HeaderEntry {
    pub name: String,
    pub value: String,
}

impl View for HeaderEntry {
    type V = (Seq<char>, Seq<char>);

    open spec fn view(&self) -> (Seq<char>, Seq<char>) {
        (self.name@, self.value@)
    }
}

/// `s` holds a colon somewhere.
pub open spec fn has_colon(s: Seq<char>) -> bool {
    exists|i: int| 0 <= i < s.len() && s[i] == ':'
}

/// `i` is the position of the first colon of `s`.
pub open spec fn is_first_colon(s: Seq<char>, i: int) -> bool {
    &&& 0 <= i < s.len()
    &&& s[i] == ':'
    &&& forall|j: int| 0 <= j < i ==> s[j] != ':'
}

/// A raw header split on its first colon: the text before it is the name, the
/// text after it the value (neither is trimmed). `None` when there is no colon.
pub open spec fn header_split(s: Seq<char>) -> Option<(Seq<char>, Seq<char>)> {
    if exists|i: int| is_first_colon(s, i) {
        let i = choose|i: int| is_first_colon(s, i);
        Some((s.subrange(0, i), s.subrange(i + 1, s.len() as int)))
    } else {
        None
    }
}

/// A string with a colon has a first one.
proof fn lemma_first_colon_exists(s: Seq<char>, k: int)
    requires
        0 <= k < s.len(),
        s[k] == ':',
    ensures
        exists|i: int| is_first_colon(s, i),
    decreases k,
{
    if forall|j: int| 0 <= j < k ==> s[j] != ':' {
        assert(is_first_colon(s, k));
    } else {
        let j = choose|j: int| 0 <= j < k && s[j] == ':';
        lemma_first_colon_exists(s, j);
    }
}

/// Two first colons are the same position.
proof fn lemma_first_colon_unique(s: Seq<char>, i: int, j: int)
    requires
        is_first_colon(s, i),
        is_first_colon(s, j),
    ensures
        i == j,
{
}

/// A header splits exactly when it holds a colon.
pub proof fn lemma_split_iff_colon(s: Seq<char>)
    ensures
        header_split(s) is Some <==> has_colon(s),
{
    if has_colon(s) {
        let k = choose|k: int| 0 <= k < s.len() && s[k] == ':';
        lemma_first_colon_exists(s, k);
    }
}

/// Splits a raw header on its first colon; `None` when it has no colon.
pub fn split_header(raw: &str) -> (r: Option<HeaderEntry>)
    ensures
        r is None <==> !has_colon(raw@),
        r matches Some(h) ==> header_split(raw@) == Some(h@),
{
    let n = raw.unicode_len();
    let mut i: usize = 0;
    while i < n
        invariant
            n == raw@.len(),
            i <= n,
            forall|j: int| 0 <= j < i ==> raw@[j] != ':',
        decreases n - i,
    {
        if raw.get_char(i) == ':' {
            let name = raw.substring_char(0, i).to_owned();
            let value = raw.substring_char(i + 1, n).to_owned();
            proof {
                assert(is_first_colon(raw@, i as int));
                let k = choose|k: int| is_first_colon(raw@, k);
                lemma_first_colon_unique(raw@, i as int, k);
            }
            return Some(HeaderEntry { name, value });
        }
        i = i + 1;
    }
    None
}

} // verus!
