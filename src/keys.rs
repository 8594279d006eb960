use vstd::prelude::*;
use vstd::string::{StrSliceExecFns, StringExecFns};

verus! {

/// The separator between the entity and the metric in a cache key.
pub const KEY_SEPARATOR: char = '_';

/// The escape character of a cache key.
pub const KEY_ESCAPE: char = '\\';

/// How one character of a provider identifier is written in a key: the
/// separator and the escape character are preceded by the escape
/// character, every other character stands for itself.
pub open spec fn escape_char(c: char) -> Seq<char> {
    if c == KEY_SEPARATOR || c == KEY_ESCAPE {
        seq![KEY_ESCAPE, c]
    } else {
        seq![c]
    }
}

/// A provider identifier with each character escaped.
pub open spec fn escape(s: Seq<char>) -> Seq<char>
    decreases s.len(),
{
    if s.len() == 0 {
        Seq::empty()
    } else {
        escape_char(s[0]) + escape(s.drop_first())
    }
}

/// The cache key of an (entity, metric) pair: the escaped provider
/// identifier, the separator, then the metric.
pub open spec fn spec_cache_key(provider_id: Seq<char>, metric: Seq<char>) -> Seq<char> {
    escape(provider_id) + seq![KEY_SEPARATOR] + metric
}

proof fn lemma_escape_push(s: Seq<char>, c: char)
    ensures
        escape(s.push(c)) == escape(s) + escape_char(c),
    decreases s.len(),
{
    if s.len() == 0 {
        assert(s.push(c).drop_first() =~= Seq::<char>::empty());
        assert(s.push(c)[0] == c);
        assert(escape(Seq::<char>::empty()) == Seq::<char>::empty());
        assert(escape(s.push(c)) =~= escape_char(c));
    } else {
        assert(s.push(c).drop_first() =~= s.drop_first().push(c));
        lemma_escape_push(s.drop_first(), c);
        assert(s.push(c)[0] == s[0]);
        assert(escape(s.push(c)) =~= escape(s) + escape_char(c));
    }
}

/// Computes the cache key of an (entity, metric) pair.
pub fn cache_key(provider_id: &str, metric: &str) -> (r: String)
    ensures
        r@ == spec_cache_key(provider_id@, metric@),
{
    proof {
        reveal_strlit("_");
    }
    let n = provider_id.unicode_len();
    let mut key = String::new();
    let mut i: usize = 0;
    while i < n
        invariant
            n == provider_id@.len(),
            i <= n,
            key@ == escape(provider_id@.subrange(0, i as int)),
        decreases n - i,
    {
        let c = provider_id.get_char(i);
        proof {
            assert(provider_id@.subrange(0, i as int + 1) =~= provider_id@.subrange(0, i as int).push(c));
            lemma_escape_push(provider_id@.subrange(0, i as int), c);
        }
        if c == '_' {
            proof {
                reveal_strlit("\\_");
                assert("\\_"@ =~= escape_char(c));
            }
            key.append("\\_");
        } else if c == '\\' {
            proof {
                reveal_strlit("\\\\");
                assert("\\\\"@ =~= escape_char(c));
            }
            key.append("\\\\");
        } else {
            let one = provider_id.substring_char(i, i + 1);
            assert(one@ =~= seq![c]);
            key.append(one);
        }
        i = i + 1;
    }
    assert(provider_id@.subrange(0, n as int) =~= provider_id@);
    key.append("_");
    key.append(metric);
    key
}

proof fn lemma_escape_head(s: Seq<char>, rest: Seq<char>)
    requires
        s.len() > 0,
    ensures
        (escape(s) + rest)[0] != KEY_SEPARATOR,
        escape(s) + rest == escape_char(s[0]) + (escape(s.drop_first()) + rest),
{
    assert(escape(s) + rest =~= escape_char(s[0]) + (escape(s.drop_first()) + rest));
}

/// Keys never collide: two (entity, metric) pairs with the same key are
/// the same pair, whatever characters their identifiers hold.
pub proof fn cache_key_injective(id1: Seq<char>, m1: Seq<char>, id2: Seq<char>, m2: Seq<char>)
    requires
        spec_cache_key(id1, m1) == spec_cache_key(id2, m2),
    ensures
        id1 == id2,
        m1 == m2,
    decreases id1.len(),
{
    let tail1 = seq![KEY_SEPARATOR] + m1;
    let tail2 = seq![KEY_SEPARATOR] + m2;
    let k = spec_cache_key(id1, m1);
    assert(k =~= escape(id1) + tail1);
    assert(spec_cache_key(id2, m2) =~= escape(id2) + tail2);
    if id1.len() == 0 || id2.len() == 0 {
        if id1.len() > 0 {
            lemma_escape_head(id1, tail1);
        } else if id2.len() > 0 {
            lemma_escape_head(id2, tail2);
        } else {
            assert(m1 =~= k.subrange(1, k.len() as int));
            assert(m2 =~= k.subrange(1, k.len() as int));
        }
    } else {
        lemma_escape_head(id1, tail1);
        lemma_escape_head(id2, tail2);
        let e1 = escape_char(id1[0]);
        let e2 = escape_char(id2[0]);
        assert(id1[0] == id2[0]) by {
            assert(k[0] == e1[0] && k[0] == e2[0]);
            if e1.len() == 2 && e2.len() == 2 {
                assert(k[1] == e1[1] && k[1] == e2[1]);
            }
        }
        let l = e1.len() as int;
        let r1 = escape(id1.drop_first()) + tail1;
        let r2 = escape(id2.drop_first()) + tail2;
        assert(r1 =~= k.subrange(l, k.len() as int));
        assert(r2 =~= k.subrange(l, k.len() as int));
        assert(spec_cache_key(id1.drop_first(), m1) =~= r1);
        assert(spec_cache_key(id2.drop_first(), m2) =~= r2);
        cache_key_injective(id1.drop_first(), m1, id2.drop_first(), m2);
        assert(id1 =~= seq![id1[0]] + id1.drop_first());
        assert(id2 =~= seq![id2[0]] + id2.drop_first());
    }
}

} // verus!
