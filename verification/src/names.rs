//! Lookup of values registered under string names.
//!
//! The libraries keep their entries as a vector of `(name, value)` pairs, at
//! most one per name, rather than a `HashMap` keyed by `&str`: vstd states
//! what `HashMap` operations do only for key types that obey its key model
//! (integers, `bool` and boxes of them), which string keys do not, so lookups
//! in such a map could not be tied to what was registered.
use vstd::prelude::*;

verus! {

/// Whether two strings hold the same characters.
pub fn str_eq(a: &str, b: &str) -> (r: bool)
    ensures
        r == (a@ == b@),
{
    let x = a.as_bytes();
    let y = b.as_bytes();
    proof {
        vstd::utf8::encode_utf8_decode_utf8(a@);
        vstd::utf8::encode_utf8_decode_utf8(b@);
    }
    if x.len() != y.len() {
        return false;
    }
    let n = x.len();
    let mut i: usize = 0;
    while i < n
        invariant
            n == x@.len(),
            n == y@.len(),
            i <= n,
            x@ == vstd::utf8::encode_utf8(a@),
            y@ == vstd::utf8::encode_utf8(b@),
            forall|k: int| 0 <= k < i ==> x@[k] == y@[k],
        decreases n - i,
    {
        if x[i] != y[i] {
            return false;
        }
        i += 1;
    }
    assert(x@ =~= y@);
    true
}

/// The value registered under `name`: the first entry whose name it is.
pub open spec fn lookup<V>(entries: Seq<(&'static str, V)>, name: Seq<char>) -> Option<V>
    decreases entries.len(),
{
    if entries.len() == 0 {
        None
    } else if entries[0].0@ == name {
        Some(entries[0].1)
    } else {
        lookup(entries.drop_first(), name)
    }
}

/// Position of the first entry registered under `name`, or -1.
pub open spec fn first_position<V>(entries: Seq<(&'static str, V)>, name: Seq<char>) -> int
    decreases entries.len(),
{
    if entries.len() == 0 {
        -1
    } else if entries[0].0@ == name {
        0
    } else {
        let p = first_position(entries.drop_first(), name);
        if p < 0 {
            -1
        } else {
            p + 1
        }
    }
}

proof fn lemma_first_position<V>(entries: Seq<(&'static str, V)>, name: Seq<char>)
    ensures
        ({
            let p = first_position(entries, name);
            &&& -1 <= p < entries.len()
            &&& p >= 0 ==> entries[p].0@ == name && lookup(entries, name) == Some(entries[p].1)
            &&& forall|j: int| 0 <= j < entries.len() && (p < 0 || j < p) ==> #[trigger] entries[j].0@ != name
            &&& p < 0 ==> lookup(entries, name) is None
        }),
    decreases entries.len(),
{
    if entries.len() > 0 && entries[0].0@ != name {
        let rest = entries.drop_first();
        lemma_first_position(rest, name);
        assert forall|j: int|
            0 <= j < entries.len() && (first_position(entries, name) < 0 || j < first_position(
                entries,
                name,
            )) implies #[trigger] entries[j].0@ != name by {
            if j > 0 {
                assert(entries[j] == rest[j - 1]);
            }
        }
    }
}

/// `lookup` on entries none of whose first `p` entries is named `name`, and
/// whose entry `p` is, gives entry `p`'s value.
proof fn lemma_lookup_at<V>(entries: Seq<(&'static str, V)>, name: Seq<char>, p: int)
    requires
        0 <= p < entries.len(),
        entries[p].0@ == name,
        forall|j: int| 0 <= j < p ==> #[trigger] entries[j].0@ != name,
    ensures
        lookup(entries, name) == Some(entries[p].1),
    decreases p,
{
    if p > 0 {
        let rest = entries.drop_first();
        assert forall|j: int| 0 <= j < p - 1 implies #[trigger] rest[j].0@ != name by {
            assert(rest[j] == entries[j + 1]);
        }
        lemma_lookup_at(rest, name, p - 1);
    }
}

/// `lookup` on entries none of which is named `name` gives nothing.
proof fn lemma_lookup_absent<V>(entries: Seq<(&'static str, V)>, name: Seq<char>)
    requires
        forall|j: int| 0 <= j < entries.len() ==> #[trigger] entries[j].0@ != name,
    ensures
        lookup(entries, name) is None,
    decreases entries.len(),
{
    if entries.len() > 0 {
        let rest = entries.drop_first();
        assert forall|j: int| 0 <= j < rest.len() implies #[trigger] rest[j].0@ != name by {
            assert(rest[j] == entries[j + 1]);
        }
        lemma_lookup_absent(rest, name);
    }
}

/// `after` is `before` with `value` registered under `name`, replacing any
/// earlier registration; every other name keeps its value.
pub open spec fn registered<V>(
    before: Seq<(&'static str, V)>,
    after: Seq<(&'static str, V)>,
    name: Seq<char>,
    value: V,
) -> bool {
    forall|k: Seq<char>|
        #[trigger] lookup(after, k) == if k == name {
            Some(value)
        } else {
            lookup(before, k)
        }
}

/// After registering `value` under `name`, looking `name` up gives `value`
/// and looking up any other name gives what it gave before.
pub proof fn lemma_register_then_lookup<V>(
    before: Seq<(&'static str, V)>,
    after: Seq<(&'static str, V)>,
    name: Seq<char>,
    value: V,
    other: Seq<char>,
)
    requires
        registered(before, after, name, value),
    ensures
        lookup(after, name) == Some(value),
        other != name ==> lookup(after, other) == lookup(before, other),
{
    assert(lookup(after, name) == Some(value));
    assert(lookup(after, other) == if other == name {
        Some(value)
    } else {
        lookup(before, other)
    });
}

/// Position of the first entry registered under `name`.
pub fn position_of<V>(entries: &Vec<(&'static str, V)>, name: &str) -> (r: Option<usize>)
    ensures
        match r {
            Some(p) => p == first_position(entries@, name@),
            None => first_position(entries@, name@) < 0,
        },
{
    proof {
        lemma_first_position(entries@, name@);
    }
    let n = entries.len();
    let mut i: usize = 0;
    while i < n
        invariant
            n == entries@.len(),
            i <= n,
            forall|j: int| 0 <= j < i ==> #[trigger] entries@[j].0@ != name@,
            ({
                let p = first_position(entries@, name@);
                &&& -1 <= p < entries@.len()
                &&& p >= 0 ==> entries@[p].0@ == name@
                &&& forall|j: int|
                    0 <= j < entries@.len() && (p < 0 || j < p) ==> #[trigger] entries@[j].0@ != name@
            }),
        decreases n - i,
    {
        if str_eq(entries[i].0, name) {
            return Some(i);
        }
        i += 1;
    }
    None
}

/// Registers `value` under `name`: replaces the entry of that name in place,
/// or appends one.
pub fn register<V>(entries: &mut Vec<(&'static str, V)>, name: &'static str, value: V)
    ensures
        registered(old(entries)@, final(entries)@, name@, value),
{
    let ghost before = entries@;
    proof {
        lemma_first_position(before, name@);
    }
    match position_of(entries, name) {
        Some(p) => {
            entries.set(p, (name, value));
            let ghost after = entries@;
            assert forall|k: Seq<char>|
                #[trigger] lookup(after, k) == if k == name@ {
                    Some(value)
                } else {
                    lookup(before, k)
                } by {
                lemma_first_position(before, k);
                let q = first_position(before, k);
                if k == name@ {
                    assert forall|j: int| 0 <= j < p implies #[trigger] after[j].0@ != k by {
                        assert(after[j] == before[j]);
                    }
                    lemma_lookup_at(after, k, p as int);
                } else if q >= 0 {
                    assert(q != p);
                    assert forall|j: int| 0 <= j < q implies #[trigger] after[j].0@ != k by {
                        assert(after[j] == before[j] || j == p);
                    }
                    lemma_lookup_at(after, k, q);
                } else {
                    assert forall|j: int| 0 <= j < after.len() implies #[trigger] after[j].0@ != k by {
                        assert(after[j] == before[j] || j == p);
                    }
                    lemma_lookup_absent(after, k);
                }
            }
        },
        None => {
            entries.push((name, value));
            let ghost after = entries@;
            assert forall|k: Seq<char>|
                #[trigger] lookup(after, k) == if k == name@ {
                    Some(value)
                } else {
                    lookup(before, k)
                } by {
                lemma_first_position(before, k);
                let q = first_position(before, k);
                if k == name@ {
                    assert forall|j: int| 0 <= j < before.len() implies #[trigger] after[j].0@ != k by {
                        assert(after[j] == before[j]);
                    }
                    lemma_lookup_at(after, k, before.len() as int);
                } else if q >= 0 {
                    assert forall|j: int| 0 <= j < q implies #[trigger] after[j].0@ != k by {
                        assert(after[j] == before[j]);
                    }
                    lemma_lookup_at(after, k, q);
                } else {
                    assert forall|j: int| 0 <= j < after.len() implies #[trigger] after[j].0@ != k by {
                        if j < before.len() {
                            assert(after[j] == before[j]);
                        }
                    }
                    lemma_lookup_absent(after, k);
                }
            }
        },
    }
}

/// The value registered under `name`, if any.
pub fn find<'a, V>(entries: &'a Vec<(&'static str, V)>, name: &str) -> (r: Option<&'a V>)
    ensures
        match r {
            Some(v) => lookup(entries@, name@) == Some(*v),
            None => lookup(entries@, name@) is None,
        },
{
    proof {
        lemma_first_position(entries@, name@);
    }
    match position_of(entries, name) {
        Some(p) => Some(&entries[p].1),
        None => None,
    }
}

} // verus!
