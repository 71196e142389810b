use vstd::prelude::*;

verus! {

/// The characters with Unicode's `White_Space` property, which is what
/// `char::is_whitespace` and `str::trim` go by.
pub open spec fn is_white(c: char) -> bool {
    let u = c as u32;
    (0x9 <= u && u <= 0xd) || u == 0x20 || u == 0x85 || u == 0xa0 || u == 0x1680 || (0x2000 <= u
        && u <= 0x200a) || u == 0x2028 || u == 0x2029 || u == 0x202f || u == 0x205f || u == 0x3000
}

/// `s` without its leading whitespace.
pub open spec fn trim_start(s: Seq<char>) -> Seq<char>
    decreases s.len(),
{
    if s.len() > 0 && is_white(s[0]) {
        trim_start(s.drop_first())
    } else {
        s
    }
}

/// `s` without its trailing whitespace.
pub open spec fn trim_end(s: Seq<char>) -> Seq<char>
    decreases s.len(),
{
    if s.len() > 0 && is_white(s.last()) {
        trim_end(s.drop_last())
    } else {
        s
    }
}

/// `s` without leading or trailing whitespace.
pub open spec fn trimmed(s: Seq<char>) -> Seq<char> {
    trim_end(trim_start(s))
}

/// Every character of `s` is whitespace.
pub open spec fn all_white(s: Seq<char>) -> bool {
    forall|i: int| 0 <= i < s.len() ==> is_white(#[trigger] s[i])
}

/// Relies on `str::trim`: the result is `s` with leading and trailing
/// `White_Space` characters removed.
#[verifier::external_body]
pub(crate) fn trim_text(s: &str) -> (r: String)
    ensures
        r@ == trimmed(s@),
{
    s.trim().to_string()
}

/// The status word that marks a record done.
pub open spec fn complete_word() -> Seq<char> {
    seq!['c', 'o', 'm', 'p', 'l', 'e', 't', 'e']
}

/// The status word that marks a record not done.
pub open spec fn todo_word() -> Seq<char> {
    seq!['t', 'o', 'd', 'o']
}

/// Whether `s` is the word `complete`.
pub fn is_complete_word(s: &String) -> (r: bool)
    ensures
        r == (s@ == complete_word()),
{
    let w = "complete".to_owned();
    proof {
        reveal_strlit("complete");
        assert(w@ =~= complete_word());
    }
    *s == w
}

/// Whether `s` is the word `todo`.
pub fn is_todo_word(s: &String) -> (r: bool)
    ensures
        r == (s@ == todo_word()),
{
    let w = "todo".to_owned();
    proof {
        reveal_strlit("todo");
        assert(w@ =~= todo_word());
    }
    *s == w
}

/// Trimming text that is all whitespace leaves nothing.
pub proof fn lemma_trim_all_white(s: Seq<char>)
    requires
        all_white(s),
    ensures
        trimmed(s).len() == 0,
    decreases s.len(),
{
    if s.len() > 0 {
        assert(is_white(s[0]));
        let t = s.drop_first();
        assert(all_white(t)) by {
            assert forall|i: int| 0 <= i < t.len() implies is_white(#[trigger] t[i]) by {
                assert(t[i] == s[i + 1]);
            }
        }
        lemma_trim_all_white(t);
    }
}

} // verus!
