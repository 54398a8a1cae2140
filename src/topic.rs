//! Topic paths: `/`-separated segments.
use vstd::prelude::*;
use vstd::string::*;

verus! {

/// `topic` equals `prefix` or lies below it, segment-wise: `a/bb` is not below `a/b`.
pub open spec fn is_below(topic: Seq<char>, prefix: Seq<char>) -> bool {
    topic == prefix || (topic.len() > prefix.len() && topic.subrange(0, prefix.len() as int)
        == prefix && topic[prefix.len() as int] == '/')
}

/// Whether `topic` is equal to or nested under `prefix`.
pub fn is_below_exec(topic: &str, prefix: &str) -> (r: bool)
    ensures
        r == is_below(topic@, prefix@),
{
    let n = topic.unicode_len();
    let m = prefix.unicode_len();
    if m > n {
        return false;
    }
    let mut i: usize = 0;
    while i < m
        invariant
            n == topic@.len(),
            m == prefix@.len(),
            m <= n,
            i <= m,
            topic@.subrange(0, i as int) == prefix@.subrange(0, i as int),
        decreases m - i,
    {
        if topic.get_char(i) != prefix.get_char(i) {
            assert(topic@.subrange(0, m as int)[i as int] != prefix@[i as int]);
            return false;
        }
        i = i + 1;
        assert(topic@.subrange(0, i as int) =~= topic@.subrange(0, i - 1 as int).push(topic@[i - 1]));
        assert(prefix@.subrange(0, i as int) =~= prefix@.subrange(0, i - 1 as int).push(prefix@[i - 1]));
    }
    assert(prefix@.subrange(0, m as int) =~= prefix@);
    if m == n {
        assert(topic@ =~= topic@.subrange(0, m as int));
        true
    } else {
        topic.get_char(m) == '/'
    }
}

} // verus!
