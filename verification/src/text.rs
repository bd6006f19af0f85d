//! Byte-level text matching used by the supervisor decisions.

use vstd::prelude::*;
use vstd::string::StringSliceAdditionalSpecFns;

verus! {

/// `needle` occurs in `hay` starting at byte offset `i`.
pub open spec fn occurs_at(hay: Seq<u8>, needle: Seq<u8>, i: int) -> bool {
    &&& 0 <= i
    &&& i + needle.len() <= hay.len()
    &&& hay.subrange(i, i + needle.len()) == needle
}

/// `needle` occurs somewhere in `hay` as a contiguous run of bytes.
pub open spec fn contains_bytes(hay: Seq<u8>, needle: Seq<u8>) -> bool {
    exists|i: int| #[trigger] occurs_at(hay, needle, i)
}

/// Does `needle` occur in `hay` at offset `i`?
fn matches_at(hay: &[u8], needle: &[u8], i: usize) -> (r: bool)
    requires
        i + needle.len() <= hay.len(),
    ensures
        r == occurs_at(hay@, needle@, i as int),
{
    let mut k: usize = 0;
    while k < needle.len()
        invariant
            i + needle.len() <= hay.len(),
            k <= needle.len(),
            forall|m: int| 0 <= m < k ==> hay@[i + m] == needle@[m],
        decreases needle.len() - k,
    {
        if hay[i + k] != needle[k] {
            assert(hay@.subrange(i as int, i + needle.len())[k as int] != needle@[k as int]);
            return false;
        }
        k = k + 1;
    }
    assert(hay@.subrange(i as int, i + needle.len()) =~= needle@);
    true
}

/// Substring search on bytes: true exactly when `needle` occurs in `hay`.
pub fn bytes_contain(hay: &[u8], needle: &[u8]) -> (r: bool)
    ensures
        r == contains_bytes(hay@, needle@),
{
    if needle.len() > hay.len() {
        return false;
    }
    if needle.len() == 0 {
        assert(occurs_at(hay@, needle@, 0)) by {
            assert(hay@.subrange(0, 0) =~= needle@);
        }
        return true;
    }
    let last = hay.len() - needle.len();
    let mut i: usize = 0;
    while i <= last
        invariant
            last == hay.len() - needle.len(),
            0 < needle.len() <= hay.len(),
            i <= last + 1,
            forall|j: int| 0 <= j < i ==> !occurs_at(hay@, needle@, j),
        decreases last + 1 - i,
    {
        if matches_at(hay, needle, i) {
            return true;
        }
        i = i + 1;
    }
    assert forall|j: int| !occurs_at(hay@, needle@, j) by {
        if 0 <= j && j < i {
        }
    }
    false
}

/// `str::contains` with a string pattern: the UTF-8 bytes of `needle` occur
/// in the UTF-8 bytes of `hay`.
pub fn str_contains(hay: &str, needle: &str) -> (r: bool)
    ensures
        r == contains_bytes(hay.spec_bytes(), needle.spec_bytes()),
{
    bytes_contain(hay.as_bytes(), needle.as_bytes())
}

/// Byte-wise equality of two byte slices.
pub fn bytes_equal(a: &[u8], b: &[u8]) -> (r: bool)
    ensures
        r == (a@ == b@),
{
    if a.len() != b.len() {
        return false;
    }
    let mut i: usize = 0;
    while i < a.len()
        invariant
            a@.len() == b@.len(),
            i <= a@.len(),
            forall|j: int| 0 <= j < i ==> a@[j] == b@[j],
        decreases a.len() - i,
    {
        if a[i] != b[i] {
            return false;
        }
        i = i + 1;
    }
    assert(a@ =~= b@);
    true
}

/// String equality: the two strings hold the same characters.
pub fn str_equal(a: &str, b: &str) -> (r: bool)
    ensures
        r == (a@ == b@),
{
    let same = bytes_equal(a.as_bytes(), b.as_bytes());
    proof {
        vstd::utf8::encode_utf8_decode_utf8(a@);
        vstd::utf8::encode_utf8_decode_utf8(b@);
    }
    same
}

/// The error text names an interrupted system call: it mentions
/// `Interrupted`, `system` and `call`.
pub open spec fn mentions_interrupted_system_call(message: Seq<u8>) -> bool {
    &&& contains_bytes(message, "Interrupted".spec_bytes())
    &&& contains_bytes(message, "system".spec_bytes())
    &&& contains_bytes(message, "call".spec_bytes())
}

/// Does the (debug-formatted) error text report an interrupted system call,
/// as a termination signal causes?
pub fn is_interrupted_system_call(message: &str) -> (r: bool)
    ensures
        r == mentions_interrupted_system_call(message.spec_bytes()),
{
    str_contains(message, "Interrupted") && str_contains(message, "system") && str_contains(
        message,
        "call",
    )
}

/// The value of `NO_PRELUDE` turns the operating-system prelude and
/// epilogue off: it mentions `t`, `T` or `1`.
pub open spec fn disables_prelude(value: Seq<u8>) -> bool {
    ||| contains_bytes(value, "t".spec_bytes())
    ||| contains_bytes(value, "T".spec_bytes())
    ||| contains_bytes(value, "1".spec_bytes())
}

/// Whether the operating-system prelude (and epilogue) is skipped, given
/// the value of the `NO_PRELUDE` environment variable, `None` when it is
/// unset or not valid Unicode.
pub fn prelude_skipped(no_prelude: Option<&str>) -> (skip: bool)
    ensures
        skip == (match no_prelude {
            Some(v) => disables_prelude(v.spec_bytes()),
            None => false,
        }),
{
    match no_prelude {
        Some(v) => str_contains(v, "t") || str_contains(v, "T") || str_contains(v, "1"),
        None => false,
    }
}

/// Some process's executable file name is `proc_name`.
pub fn any_process_named(exe_file_names: &[String], proc_name: &str) -> (found: bool)
    ensures
        found == exists|i: int| 0 <= i < exe_file_names@.len() && #[trigger] exe_file_names@[i]@ == proc_name@,
{
    let mut i: usize = 0;
    while i < exe_file_names.len()
        invariant
            i <= exe_file_names@.len(),
            forall|j: int| 0 <= j < i ==> #[trigger] exe_file_names@[j]@ != proc_name@,
        decreases exe_file_names.len() - i,
    {
        if str_equal(exe_file_names[i].as_str(), proc_name) {
            return true;
        }
        i = i + 1;
    }
    false
}

/// `contains_bytes` spelled out: some window of `hay` as long as `needle`
/// equals it.
pub proof fn lemma_contains_bytes_windows(hay: Seq<u8>, needle: Seq<u8>)
    ensures
        contains_bytes(hay, needle) <==> exists|i: int|
            0 <= i && i + needle.len() <= hay.len() && #[trigger] hay.subrange(i, i + needle.len())
                == needle,
{
    if contains_bytes(hay, needle) {
        let i = choose|i: int| #[trigger] occurs_at(hay, needle, i);
        assert(hay.subrange(i, i + needle.len()) == needle);
    }
    if exists|i: int|
        0 <= i && i + needle.len() <= hay.len() && #[trigger] hay.subrange(i, i + needle.len())
            == needle {
        let i = choose|i: int|
            0 <= i && i + needle.len() <= hay.len() && #[trigger] hay.subrange(i, i + needle.len())
                == needle;
        assert(occurs_at(hay, needle, i));
    }
}

/// A one-byte needle occurs exactly when some byte of `hay` is that byte.
pub proof fn lemma_contains_single_byte(hay: Seq<u8>, b: u8)
    ensures
        contains_bytes(hay, seq![b]) <==> exists|i: int| 0 <= i < hay.len() && #[trigger] hay[i] == b,
{
    if contains_bytes(hay, seq![b]) {
        let i = choose|i: int| #[trigger] occurs_at(hay, seq![b], i);
        assert(hay.subrange(i, i + 1)[0] == b);
        assert(hay[i] == b);
    }
    if exists|i: int| 0 <= i < hay.len() && #[trigger] hay[i] == b {
        let i = choose|i: int| 0 <= i < hay.len() && #[trigger] hay[i] == b;
        assert(hay.subrange(i, i + 1) =~= seq![b]);
        assert(occurs_at(hay, seq![b], i));
    }
}

/// The UTF-8 bytes of an ASCII string are its characters, one byte each.
pub proof fn lemma_ascii_bytes(s: &str)
    requires
        vstd::utf8::is_ascii_chars(s@),
    ensures
        s.spec_bytes() == Seq::new(s@.len(), |i: int| s@[i] as u8),
{
    vstd::utf8::is_ascii_chars_encode_utf8(s@);
    assert(s.spec_bytes() =~= Seq::new(s@.len(), |i: int| s@[i] as u8));
}

/// The bytes of the words that mark an interrupted system call.
pub proof fn lemma_signal_words()
    ensures
        "Interrupted".spec_bytes() == seq![73u8, 110u8, 116u8, 101u8, 114u8, 114u8, 117u8, 112u8, 116u8, 101u8, 100u8],
        "system".spec_bytes() == seq![115u8, 121u8, 115u8, 116u8, 101u8, 109u8],
        "call".spec_bytes() == seq![99u8, 97u8, 108u8, 108u8],
{
    reveal_strlit("Interrupted");
    reveal_strlit("system");
    reveal_strlit("call");
    lemma_ascii_bytes("Interrupted");
    lemma_ascii_bytes("system");
    lemma_ascii_bytes("call");
    assert("Interrupted".spec_bytes() =~= seq![73u8, 110u8, 116u8, 101u8, 114u8, 114u8, 117u8, 112u8, 116u8, 101u8, 100u8]);
    assert("system".spec_bytes() =~= seq![115u8, 121u8, 115u8, 116u8, 101u8, 109u8]);
    assert("call".spec_bytes() =~= seq![99u8, 97u8, 108u8, 108u8]);
}

/// `NO_PRELUDE` turns the prelude off exactly when one of its bytes is
/// `t` (116), `T` (84) or `1` (49).
pub proof fn lemma_prelude_switch(value: Seq<u8>)
    ensures
        disables_prelude(value) <==> exists|i: int|
            0 <= i < value.len() && (#[trigger] value[i] == 116u8 || value[i] == 84u8 || value[i]
                == 49u8),
{
    reveal_strlit("t");
    reveal_strlit("T");
    reveal_strlit("1");
    lemma_ascii_bytes("t");
    lemma_ascii_bytes("T");
    lemma_ascii_bytes("1");
    assert("t".spec_bytes() =~= seq![116u8]);
    assert("T".spec_bytes() =~= seq![84u8]);
    assert("1".spec_bytes() =~= seq![49u8]);
    lemma_contains_single_byte(value, 116u8);
    lemma_contains_single_byte(value, 84u8);
    lemma_contains_single_byte(value, 49u8);
    if exists|i: int|
        0 <= i < value.len() && (#[trigger] value[i] == 116u8 || value[i] == 84u8 || value[i]
            == 49u8) {
        let i = choose|i: int|
            0 <= i < value.len() && (#[trigger] value[i] == 116u8 || value[i] == 84u8 || value[i]
                == 49u8);
        assert(value[i] == 116u8 || value[i] == 84u8 || value[i] == 49u8);
    }
}

} // verus!
