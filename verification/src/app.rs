//! Foreground application targets.

use vstd::prelude::*;
use vstd::string::*;

use crate::text::{chars_of, to_lowercase, lowercase};

verus! {

/// A running foreground application: process identifier, display name and
/// bundle identifier (empty when the application has none).
#[derive(Debug)]
pub struct AppTarget {
    pub pid: i32,
    pub name: String,
    pub bundle_id: String,
}

impl AppTarget {
    /// An identical copy of the target.
    pub fn duplicate(&self) -> (r: Self)
        ensures
            r == *self,
    {
        AppTarget { pid: self.pid, name: self.name.clone(), bundle_id: self.bundle_id.clone() }
    }
}

/// A running application as the system reports it becomes a target when it
/// is a regular application (shown in the Dock and the Cmd+Tab switcher) and
/// its PID is positive; a missing name reads "Unknown", a missing bundle
/// identifier is empty.
pub open spec fn target_from_running(
    regular: bool,
    pid: i32,
    name: Option<Seq<char>>,
    bundle_id: Option<Seq<char>>,
) -> Option<(i32, Seq<char>, Seq<char>)> {
    if !regular || pid <= 0 {
        None
    } else {
        Some(
            (
                pid,
                match name {
                    Some(n) => n,
                    None => "Unknown"@,
                },
                match bundle_id {
                    Some(b) => b,
                    None => Seq::empty(),
                },
            ),
        )
    }
}

impl AppTarget {
    /// The target for a running application: none unless it is a regular
    /// application with a positive PID.
    pub fn from_running(
        regular: bool,
        pid: i32,
        name: Option<String>,
        bundle_id: Option<String>,
    ) -> (r: Option<Self>)
        ensures
            match target_from_running(
                regular,
                pid,
                match name {
                    Some(n) => Some(n@),
                    None => None,
                },
                match bundle_id {
                    Some(b) => Some(b@),
                    None => None,
                },
            ) {
                Some((p, n, b)) => r is Some && r->0.pid == p && r->0.name@ == n && r->0.bundle_id@
                    == b,
                None => r is None,
            },
    {
        if !regular || pid <= 0 {
            return None;
        }
        let name = match name {
            Some(n) => n,
            None => String::from_str("Unknown"),
        };
        let bundle_id = match bundle_id {
            Some(b) => b,
            None => String::new(),
        };
        Some(AppTarget { pid, name, bundle_id })
    }
}

/// Lexicographic order of character sequences by code point, the order of
/// `String` comparison.
pub open spec fn lex_le(a: Seq<char>, b: Seq<char>) -> bool
    decreases a.len(),
{
    if a.len() == 0 {
        true
    } else if b.len() == 0 {
        false
    } else if a[0] != b[0] {
        a[0] < b[0]
    } else {
        lex_le(a.drop_first(), b.drop_first())
    }
}

proof fn lemma_lex_total(a: Seq<char>, b: Seq<char>)
    ensures
        lex_le(a, b) || lex_le(b, a),
    decreases a.len(),
{
    if a.len() > 0 && b.len() > 0 && a[0] == b[0] {
        lemma_lex_total(a.drop_first(), b.drop_first());
    }
}

proof fn lemma_lex_transitive(a: Seq<char>, b: Seq<char>, c: Seq<char>)
    requires
        lex_le(a, b),
        lex_le(b, c),
    ensures
        lex_le(a, c),
    decreases a.len(),
{
    if a.len() > 0 && b.len() > 0 && c.len() > 0 && a[0] == b[0] && b[0] == c[0] {
        lemma_lex_transitive(a.drop_first(), b.drop_first(), c.drop_first());
    }
}

/// The sort key of a target: its name, lower-cased.
pub open spec fn name_key(a: AppTarget) -> Seq<char> {
    lowercase(a.name@)
}

/// The test for targets whose sort key is `k`.
pub open spec fn has_key(k: Seq<char>) -> spec_fn(AppTarget) -> bool {
    |a: AppTarget| name_key(a) == k
}

/// Whether targets are in order of their lower-cased names.
pub open spec fn sorted_by_name(s: Seq<AppTarget>) -> bool {
    forall|i: int, j: int| 0 <= i < j < s.len() ==> lex_le(name_key(#[trigger] s[i]), name_key(#[trigger] s[j]))
}

/// Whether `out` is `input` stably sorted by lower-cased name: the same
/// targets, in order of their keys, and targets with equal keys in their
/// original order.
pub open spec fn stably_sorted_by_name(input: Seq<AppTarget>, out: Seq<AppTarget>) -> bool {
    &&& out.to_multiset() == input.to_multiset()
    &&& sorted_by_name(out)
    &&& forall|k: Seq<char>| #[trigger] out.filter(has_key(k)) == input.filter(has_key(k))
}

/// Compares two character sequences lexicographically.
fn chars_le(a: &Vec<char>, b: &Vec<char>) -> (r: bool)
    ensures
        r == lex_le(a@, b@),
{
    let mut i: usize = 0;
    assert(a@.subrange(0, a@.len() as int) == a@ && b@.subrange(0, b@.len() as int) == b@);
    while i < a.len() && i < b.len() && a[i] == b[i]
        invariant
            i <= a@.len(),
            i <= b@.len(),
            forall|k: int| 0 <= k < i ==> a@[k] == b@[k],
            lex_le(a@, b@) == lex_le(a@.subrange(i as int, a@.len() as int), b@.subrange(i as int, b@.len() as int)),
        decreases a.len() - i,
    {
        let ghost sa = a@.subrange(i as int, a@.len() as int);
        let ghost sb = b@.subrange(i as int, b@.len() as int);
        assert(sa.drop_first() == a@.subrange(i + 1, a@.len() as int));
        assert(sb.drop_first() == b@.subrange(i + 1, b@.len() as int));
        i = i + 1;
    }
    let ghost sa = a@.subrange(i as int, a@.len() as int);
    let ghost sb = b@.subrange(i as int, b@.len() as int);
    if i == a.len() {
        assert(sa.len() == 0);
        true
    } else if i == b.len() {
        false
    } else {
        assert(sa[0] == a@[i as int] && sb[0] == b@[i as int]);
        a[i] < b[i]
    }
}

proof fn lemma_lex_reflexive(a: Seq<char>)
    ensures
        lex_le(a, a),
    decreases a.len(),
{
    if a.len() > 0 {
        lemma_lex_reflexive(a.drop_first());
    }
}

proof fn lemma_filter_none(s: Seq<AppTarget>, p: spec_fn(AppTarget) -> bool)
    requires
        forall|j: int| 0 <= j < s.len() ==> !p(#[trigger] s[j]),
    ensures
        s.filter(p) == Seq::<AppTarget>::empty(),
    decreases s.len(),
{
    reveal_with_fuel(Seq::filter, 1);
    if s.len() > 0 {
        assert forall|j: int| 0 <= j < s.drop_last().len() implies !p(#[trigger] s.drop_last()[j]) by {
            assert(s.drop_last()[j] == s[j]);
        }
        lemma_filter_none(s.drop_last(), p);
        assert(!p(s[s.len() - 1]));
    }
}

/// Inserting `x` where every earlier key is at most its key and every later
/// key exceeds it keeps the list sorted and stable.
proof fn lemma_insert_sorted(s: Seq<AppTarget>, pos: int, x: AppTarget)
    requires
        0 <= pos <= s.len(),
        sorted_by_name(s),
        forall|j: int| 0 <= j < pos ==> lex_le(name_key(#[trigger] s[j]), name_key(x)),
        forall|j: int| pos <= j < s.len() ==> !lex_le(name_key(#[trigger] s[j]), name_key(x)),
    ensures
        sorted_by_name(s.insert(pos, x)),
        forall|k: Seq<char>|
            #[trigger] s.insert(pos, x).filter(has_key(k)) == if name_key(x) == k {
                s.filter(has_key(k)).push(x)
            } else {
                s.filter(has_key(k))
            },
{
    let t = s.insert(pos, x);
    let a = s.subrange(0, pos);
    let b = s.subrange(pos, s.len() as int);
    assert(t == a + seq![x] + b);
    assert(s == a + b);
    assert forall|i: int, j: int| 0 <= i < j < t.len() implies lex_le(
        name_key(#[trigger] t[i]),
        name_key(#[trigger] t[j]),
    ) by {
        if j < pos {
            assert(t[i] == s[i] && t[j] == s[j]);
        } else if j == pos {
            assert(t[i] == s[i] && t[j] == x);
        } else if i < pos {
            assert(t[i] == s[i] && t[j] == s[j - 1]);
        } else if i == pos {
            assert(t[i] == x && t[j] == s[j - 1]);
            lemma_lex_total(name_key(x), name_key(s[j - 1]));
        } else {
            assert(t[i] == s[i - 1] && t[j] == s[j - 1]);
        }
    }
    assert forall|k: Seq<char>|
        #[trigger] t.filter(has_key(k)) == if name_key(x) == k {
            s.filter(has_key(k)).push(x)
        } else {
            s.filter(has_key(k))
        } by {
        let p = has_key(k);
        Seq::filter_distributes_over_add(a + seq![x], b, p);
        Seq::filter_distributes_over_add(a, seq![x], p);
        Seq::filter_distributes_over_add(a, b, p);
        reveal_with_fuel(Seq::filter, 2);
        assert(seq![x].drop_last() == Seq::<AppTarget>::empty());
        if name_key(x) == k {
            lemma_lex_reflexive(k);
            assert forall|j: int| 0 <= j < b.len() implies !p(#[trigger] b[j]) by {
                assert(b[j] == s[pos + j]);
            }
            lemma_filter_none(b, p);
            assert(seq![x].filter(p) == seq![x]);
        } else {
            assert(seq![x].filter(p) == Seq::<AppTarget>::empty());
        }
    }
}

/// Orders targets by lower-cased name; targets with equal keys keep their
/// order.
pub fn sort_by_name(apps: Vec<AppTarget>) -> (r: Vec<AppTarget>)
    ensures
        stably_sorted_by_name(apps@, r@),
{
    let mut out: Vec<AppTarget> = Vec::new();
    let mut keys: Vec<Vec<char>> = Vec::new();
    assert(apps@.subrange(0, 0) =~= out@);
    let mut i: usize = 0;
    while i < apps.len()
        invariant
            i <= apps@.len(),
            keys@.len() == out@.len(),
            forall|j: int| 0 <= j < keys@.len() ==> #[trigger] keys@[j]@ == name_key(out@[j]),
            out@.to_multiset() == apps@.subrange(0, i as int).to_multiset(),
            sorted_by_name(out@),
            forall|k: Seq<char>|
                #[trigger] out@.filter(has_key(k)) == apps@.subrange(0, i as int).filter(has_key(k)),
        decreases apps.len() - i,
    {
        let x = apps[i].duplicate();
        let lowered = to_lowercase(x.name.as_str());
        let kx = chars_of(lowered.as_str());
        let mut pos: usize = 0;
        while pos < out.len() && chars_le(&keys[pos], &kx)
            invariant
                pos <= out@.len(),
                keys@.len() == out@.len(),
                forall|j: int| 0 <= j < keys@.len() ==> #[trigger] keys@[j]@ == name_key(out@[j]),
                kx@ == name_key(x),
                forall|j: int| 0 <= j < pos ==> lex_le(name_key(#[trigger] out@[j]), name_key(x)),
            decreases out.len() - pos,
        {
            pos = pos + 1;
        }
        proof {
            assert forall|j: int| pos <= j < out@.len() implies !lex_le(
                name_key(#[trigger] out@[j]),
                name_key(x),
            ) by {
                if lex_le(name_key(out@[j]), name_key(x)) {
                    assert(!lex_le(name_key(out@[pos as int]), name_key(x)));
                    if j > pos {
                        lemma_lex_transitive(name_key(out@[pos as int]), name_key(out@[j]), name_key(x));
                    }
                }
            }
            lemma_insert_sorted(out@, pos as int, x);
            broadcast use vstd::seq_lib::group_to_multiset_ensures;
            reveal_with_fuel(Seq::filter, 1);
            let pre = apps@.subrange(0, i + 1);
            assert(pre.drop_last() == apps@.subrange(0, i as int));
            assert(pre.last() == x);
            assert(pre == apps@.subrange(0, i as int).push(x));
        }
        let ghost old_out = out@;
        let ghost old_keys = keys@;
        out.insert(pos, x);
        keys.insert(pos, kx);
        proof {
            assert forall|j: int| 0 <= j < keys@.len() implies #[trigger] keys@[j]@ == name_key(out@[j]) by {
                if j < pos {
                    assert(keys@[j] == old_keys[j] && out@[j] == old_out[j]);
                } else if j > pos {
                    assert(keys@[j] == old_keys[j - 1] && out@[j] == old_out[j - 1]);
                }
            }
            let pre = apps@.subrange(0, i + 1);
            assert forall|k: Seq<char>|
                #[trigger] out@.filter(has_key(k)) == pre.filter(has_key(k)) by {
                reveal_with_fuel(Seq::filter, 1);
                assert(pre.drop_last() == apps@.subrange(0, i as int));
                assert(pre.last() == x);
                assert(old_out.insert(pos as int, x).filter(has_key(k)) == if name_key(x) == k {
                    old_out.filter(has_key(k)).push(x)
                } else {
                    old_out.filter(has_key(k))
                });
            }
        }
        i = i + 1;
    }
    assert(apps@.subrange(0, apps@.len() as int) == apps@);
    out
}

} // verus!
