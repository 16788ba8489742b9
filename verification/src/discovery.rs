//! The verified compute half of container discovery: turning a directory's
//! config file names into the sorted list of container names, and naming the
//! service unit a container is managed under.

use vstd::prelude::*;
use vstd::string::StrSliceExecFns;
use vstd::string::StringExecFns;
use crate::text::{
    lemma_lex_leq_antisym, lemma_lex_leq_refl, lemma_lex_leq_total, lemma_lex_leq_trans, lex_leq,
    lex_sorted, str_eq, str_leq,
};
use crate::messages::str_views;

verus! {

/// Get the service name for a container.
pub fn service_name(container: &str) -> (r: String)
    ensures
        r@ == "container@"@ + container@ + ".service"@,
{
    let mut s = String::from_str("container@");
    s.append(container);
    s.append(".service");
    proof {
        assert(("container@"@ + container@) + ".service"@ =~= "container@"@ + container@
            + ".service"@);
    }
    s
}

/// Whether the sequence holds a dot anywhere.
pub open spec fn has_dot(s: Seq<char>) -> bool {
    exists|i: int| 0 <= i < s.len() && s[i] == '.'
}

/// The index of the last dot, or -1 if there is none.
pub open spec fn last_dot(s: Seq<char>) -> int
    decreases s.len(),
{
    if s.len() == 0 {
        -1
    } else if s.last() == '.' {
        s.len() - 1
    } else {
        last_dot(s.drop_last())
    }
}

/// Everything before the last dot; the whole sequence if there is none.
pub open spec fn stem_of(s: Seq<char>) -> Seq<char> {
    if last_dot(s) >= 0 {
        s.subrange(0, last_dot(s))
    } else {
        s
    }
}

/// The stems of a sequence of names.
pub open spec fn stems_of(s: Seq<Seq<char>>) -> Seq<Seq<char>> {
    s.map_values(|e: Seq<char>| stem_of(e))
}

/// A dot with none after it is the last dot.
proof fn lemma_last_dot_is_last(s: Seq<char>, i: int)
    requires
        0 <= i < s.len(),
        s[i] == '.',
        forall|j: int| i < j < s.len() ==> s[j] != '.',
    ensures
        last_dot(s) == i,
    decreases s.len(),
{
    if s.last() == '.' {
        if i < s.len() - 1 {
            assert(s[s.len() - 1] != '.');
        }
    } else {
        assert(i < s.len() - 1);
        assert(s.drop_last()[i] == s[i]);
        assert(forall|j: int| i < j < s.drop_last().len() ==> s.drop_last()[j] != '.');
        lemma_last_dot_is_last(s.drop_last(), i);
    }
}

/// Without any dot, there is no last dot.
proof fn lemma_last_dot_none(s: Seq<char>)
    requires
        forall|j: int| 0 <= j < s.len() ==> s[j] != '.',
    ensures
        last_dot(s) == -1,
    decreases s.len(),
{
    if s.len() != 0 {
        assert(forall|j: int| 0 <= j < s.drop_last().len() ==> s.drop_last()[j] != '.');
        lemma_last_dot_none(s.drop_last());
    }
}

/// The part of a config file's name before its last dot: the container name
/// for a name of the expected form, nothing for a name without a dot.
pub fn config_stem(entry: &str) -> (r: Option<String>)
    ensures
        match r {
            Some(stem) => has_dot(entry@) && stem@ == stem_of(entry@),
            None => !has_dot(entry@),
        },
{
    let n = entry.unicode_len();
    let mut j = n;
    while j > 0
        invariant
            j <= n,
            n == entry@.len(),
            forall|k: int| j <= k < n ==> entry@[k] != '.',
        decreases j,
    {
        if entry.get_char(j - 1) == '.' {
            proof {
                lemma_last_dot_is_last(entry@, j - 1);
            }
            let stem = entry.substring_char(0, j - 1);
            return Some(stem.to_owned());
        }
        j = j - 1;
    }
    proof {
        lemma_last_dot_none(entry@);
        if has_dot(entry@) {
            let i = choose|i: int| 0 <= i < entry@.len() && entry@[i] == '.';
            lemma_last_dot_is_last(entry@, choose|i: int|
                0 <= i < entry@.len() && entry@[i] == '.' && forall|j2: int|
                    i < j2 < entry@.len() ==> entry@[j2] != '.');
        }
        assert(!has_dot(entry@));
    }
    None
}

/// The views of an inserted element slot into the views at the same place.
proof fn lemma_str_views_insert(s: Seq<String>, p: int, x: String)
    requires
        0 <= p <= s.len(),
    ensures
        str_views(s.insert(p, x)) =~= str_views(s).insert(p, x@),
{
}

/// Inserting an element anywhere adds exactly it to the set of elements.
proof fn lemma_to_set_insert(s: Seq<Seq<char>>, p: int, x: Seq<char>)
    requires
        0 <= p <= s.len(),
    ensures
        s.insert(p, x).to_set() == s.to_set().insert(x),
{
    let s2 = s.insert(p, x);
    assert forall|a: Seq<char>| s2.to_set().contains(a) implies s.to_set().insert(x).contains(
        a,
    ) by {
        let k = choose|k: int| 0 <= k < s2.len() && s2[k] == a;
        if k < p {
            assert(s[k] == a);
        } else if k == p {
            assert(a == x);
        } else {
            assert(s[k - 1] == a);
        }
    }
    assert forall|a: Seq<char>| s.to_set().insert(x).contains(a) implies s2.to_set().contains(
        a,
    ) by {
        if a == x {
            assert(s2[p] == a);
        } else {
            let k = choose|k: int| 0 <= k < s.len() && s[k] == a;
            if k < p {
                assert(s2[k] == a);
            } else {
                assert(s2[k + 1] == a);
            }
        }
    }
    assert(s2.to_set() =~= s.to_set().insert(x));
}

/// Insert one name into a sorted, duplicate-free list, keeping it sorted and
/// duplicate-free; the set of names held gains exactly the inserted one.
fn insert_sorted(out: &mut Vec<String>, x: String)
    requires
        lex_sorted(str_views(old(out)@)),
        str_views(old(out)@).no_duplicates(),
    ensures
        lex_sorted(str_views(final(out)@)),
        str_views(final(out)@).no_duplicates(),
        str_views(final(out)@).to_set() == str_views(old(out)@).to_set().insert(x@),
{
    let n = out.len();
    let mut p: usize = 0;
    while p < n && str_leq(&out[p], x.as_str())
        invariant
            p <= n,
            n == out@.len(),
            forall|k: int| 0 <= k < p ==> lex_leq(str_views(out@)[k], x@),
            out == old(out),
        decreases n - p,
    {
        p = p + 1;
    }
    if p > 0 && str_eq(out[p - 1].as_str(), x.as_str()) {
        proof {
            let vs = str_views(out@);
            assert(vs[p - 1] == x@);
            assert(vs.contains(x@));
            assert(vs.to_set().insert(x@) =~= vs.to_set());
        }
        return;
    }
    proof {
        let vs = str_views(out@);
        if p < n {
            lemma_lex_leq_total(vs[p as int], x@);
            assert(lex_leq(x@, vs[p as int]));
        }
        assert forall|k: int| p <= k < n implies lex_leq(x@, vs[k]) by {
            if k > p {
                lemma_lex_leq_trans(x@, vs[p as int], vs[k]);
            }
        }
        assert forall|k: int| 0 <= k < n implies vs[k] != x@ by {
            if k < p - 1 {
                if vs[k] == x@ {
                    lemma_lex_leq_antisym(vs[p - 1], x@);
                }
            } else if k == p as int {
                if vs[k] == x@ {
                    lemma_lex_leq_refl(x@);
                }
            } else if k > p as int {
                if vs[k] == x@ {
                    lemma_lex_leq_refl(x@);
                }
            }
        }
        lemma_str_views_insert(out@, p as int, x);
        lemma_to_set_insert(vs, p as int, x@);
        let vs2 = vs.insert(p as int, x@);
        assert forall|i: int, j: int| 0 <= i < j < vs2.len() implies lex_leq(vs2[i], vs2[j]) by {
            if j < p {
                assert(vs2[i] == vs[i] && vs2[j] == vs[j]);
            } else if i < p && j == p {
                assert(vs2[i] == vs[i] && vs2[j] == x@);
            } else if i < p {
                assert(vs2[i] == vs[i] && vs2[j] == vs[j - 1]);
            } else if i == p {
                assert(vs2[i] == x@ && vs2[j] == vs[j - 1]);
            } else {
                assert(vs2[i] == vs[i - 1] && vs2[j] == vs[j - 1]);
            }
        }
        assert forall|i: int, j: int| 0 <= i < j < vs2.len() implies vs2[i] != vs2[j] by {
            if j < p {
                assert(vs2[i] == vs[i] && vs2[j] == vs[j]);
            } else if i < p && j == p {
                assert(vs2[i] == vs[i] && vs2[j] == x@);
            } else if i < p {
                assert(vs2[i] == vs[i] && vs2[j] == vs[j - 1]);
            } else if i == p {
                assert(vs2[i] == x@ && vs2[j] == vs[j - 1]);
            } else {
                assert(vs2[i] == vs[i - 1] && vs2[j] == vs[j - 1]);
            }
        }
    }
    out.insert(p, x);
}

/// A config file whose name holds no dot, so no container name can be read
/// from it.
#[derive(Debug)]
pub struct DiscoveryError {
    /// The offending config file name.
    pub entry: String,
}

/// Get the list of container names from a directory's config file names:
/// each name's stem (the part before its last dot), sorted and
/// deduplicated. The whole list is rejected — naming the first offending
/// entry — if any entry holds no dot; discovery never partially succeeds.
pub fn container_names_from_configs(entries: &Vec<String>) -> (r: Result<
    Vec<String>,
    DiscoveryError,
>)
    ensures
        (r is Ok) <==> (forall|i: int| 0 <= i < entries@.len() ==> has_dot(#[trigger] entries@[i]@)),
        r is Ok ==> lex_sorted(str_views(r->Ok_0@)),
        r is Ok ==> str_views(r->Ok_0@).no_duplicates(),
        r is Ok ==> str_views(r->Ok_0@).to_set() == stems_of(str_views(entries@)).to_set(),
        r is Err ==> exists|i: int|
            0 <= i < entries@.len() && !has_dot(#[trigger] entries@[i]@) && (forall|j: int|
                0 <= j < i ==> has_dot(#[trigger] entries@[j]@)) && r->Err_0.entry@ == entries@[i]@,
{
    let ghost evs = str_views(entries@);
    let n = entries.len();
    let mut out: Vec<String> = Vec::new();
    let mut i: usize = 0;
    proof {
        assert(stems_of(evs.take(0)) =~= Seq::<Seq<char>>::empty());
        assert(str_views(out@) =~= Seq::<Seq<char>>::empty());
    }
    while i < n
        invariant
            i <= n,
            n == entries@.len(),
            evs == str_views(entries@),
            forall|j: int| 0 <= j < i ==> has_dot(#[trigger] evs[j]),
            lex_sorted(str_views(out@)),
            str_views(out@).no_duplicates(),
            str_views(out@).to_set() == stems_of(evs.take(i as int)).to_set(),
        decreases n - i,
    {
        match config_stem(entries[i].as_str()) {
            Some(stem) => {
                proof {
                    assert(evs[i as int] == entries@[i as int]@);
                    assert(stem@ == stem_of(evs[i as int]));
                }
                insert_sorted(&mut out, stem);
                proof {
                    let prefix = stems_of(evs.take(i as int));
                    assert(prefix.push(stem_of(evs[i as int])) =~= stems_of(
                        evs.take(i as int + 1),
                    ));
                    assert(prefix.push(stem_of(evs[i as int])) =~= prefix.insert(
                        prefix.len() as int,
                        stem_of(evs[i as int]),
                    ));
                    lemma_to_set_insert(prefix, prefix.len() as int, stem_of(evs[i as int]));
                }
            },
            None => {
                proof {
                    assert(evs[i as int] == entries@[i as int]@);
                    assert forall|j: int| 0 <= j < i implies has_dot(#[trigger] entries@[j]@) by {
                        assert(str_views(entries@)[j] == entries@[j]@);
                    }
                    assert(0 <= i < entries@.len() && !has_dot(entries@[i as int]@) && (forall|
                        j: int,
                    |
                        0 <= j < i ==> has_dot(#[trigger] entries@[j]@)));
                }
                return Err(DiscoveryError { entry: entries[i].clone() });
            },
        }
        i = i + 1;
    }
    proof {
        assert(evs.take(n as int) =~= evs);
        assert forall|i: int| 0 <= i < entries@.len() implies has_dot(
            #[trigger] entries@[i]@,
        ) by {
            assert(str_views(entries@)[i] == entries@[i]@);
        }
    }
    Ok(out)
}

} // verus!
