use vstd::prelude::*;
use crate::names::{file_stem, is_hidden, is_hidden_spec, stem_of};

verus! {

/// Lexicographic order on character sequences, by code point (the order of `String`).
pub open spec fn lex_lt(a: Seq<char>, b: Seq<char>) -> bool
    decreases a.len(),
{
    if a.len() == 0 {
        b.len() > 0
    } else if b.len() == 0 {
        false
    } else if a[0] != b[0] {
        a[0] < b[0]
    } else {
        lex_lt(a.drop_first(), b.drop_first())
    }
}

pub open spec fn strictly_sorted(s: Seq<Seq<char>>) -> bool {
    forall|i: int, j: int| 0 <= i < j < s.len() ==> lex_lt(#[trigger] s[i], #[trigger] s[j])
}

pub open spec fn names_view(v: Seq<String>) -> Seq<Seq<char>> {
    v.map_values(|s: String| s@)
}

/// The keys a directory with these entry names holds: the stems of its visible entries.
pub open spec fn keys_of(entries: Seq<Seq<char>>) -> Set<Seq<char>> {
    Set::new(|k: Seq<char>| exists|i: int| 0 <= i < entries.len() && !is_hidden_spec(entries[i]) && stem_of(entries[i]) == k)
}

pub proof fn lemma_lex_irreflexive(a: Seq<char>)
    ensures
        !lex_lt(a, a),
    decreases a.len(),
{
    if a.len() > 0 {
        lemma_lex_irreflexive(a.drop_first());
    }
}

pub proof fn lemma_lex_total(a: Seq<char>, b: Seq<char>)
    ensures
        a == b || lex_lt(a, b) || lex_lt(b, a),
    decreases a.len(),
{
    if a.len() == 0 && b.len() == 0 {
        assert(a =~= b);
    } else if a.len() > 0 && b.len() > 0 && a[0] == b[0] {
        lemma_lex_total(a.drop_first(), b.drop_first());
        if a.drop_first() == b.drop_first() {
            assert(a =~= seq![a[0]] + a.drop_first());
            assert(b =~= seq![b[0]] + b.drop_first());
        }
    }
}

pub proof fn lemma_lex_transitive(a: Seq<char>, b: Seq<char>, c: Seq<char>)
    requires
        lex_lt(a, b),
        lex_lt(b, c),
    ensures
        lex_lt(a, c),
    decreases a.len(),
{
    if a.len() > 0 && a[0] == b[0] && b[0] == c[0] {
        lemma_lex_transitive(a.drop_first(), b.drop_first(), c.drop_first());
    }
}

/// Whether `a` comes strictly before `b`.
pub fn name_lt(a: &str, b: &str) -> (r: bool)
    ensures
        r == lex_lt(a@, b@),
{
    let n = a.unicode_len();
    let m = b.unicode_len();
    let mut i: usize = 0;
    assert(a@.subrange(0, n as int) =~= a@);
    assert(b@.subrange(0, m as int) =~= b@);
    while i < n && i < m
        invariant
            n == a@.len(),
            m == b@.len(),
            i <= n,
            i <= m,
            lex_lt(a@, b@) == lex_lt(a@.subrange(i as int, n as int), b@.subrange(i as int, m as int)),
        decreases n - i,
    {
        let x = a.get_char(i);
        let y = b.get_char(i);
        let ghost sa = a@.subrange(i as int, n as int);
        let ghost sb = b@.subrange(i as int, m as int);
        assert(sa[0] == x && sb[0] == y);
        if x != y {
            return x < y;
        }
        assert(sa.drop_first() =~= a@.subrange(i + 1, n as int));
        assert(sb.drop_first() =~= b@.subrange(i + 1, m as int));
        i = i + 1;
    }
    i == n && i < m
}

/// Inserts `x` into a strictly sorted list of names, unless it is already there.
pub fn insert_name(v: &mut Vec<String>, x: String)
    requires
        strictly_sorted(names_view(old(v)@)),
    ensures
        strictly_sorted(names_view(final(v)@)),
        names_view(final(v)@).to_set() == names_view(old(v)@).to_set().insert(x@),
{
    let ghost old_names = names_view(v@);
    let mut i: usize = 0;
    while i < v.len() && name_lt(v[i].as_str(), x.as_str())
        invariant
            v@ == old(v)@,
            old_names == names_view(v@),
            strictly_sorted(old_names),
            i <= v@.len(),
            forall|j: int| 0 <= j < i ==> lex_lt(#[trigger] old_names[j], x@),
        decreases v@.len() - i,
    {
        i = i + 1;
    }
    if i < v.len() && v[i] == x {
        assert(old_names[i as int] == x@);
        assert(old_names.contains(x@));
        assert(names_view(v@).to_set() =~= old_names.to_set().insert(x@));
        return;
    }
    proof {
        if i < old_names.len() {
            lemma_lex_total(old_names[i as int], x@);
        }
        assert forall|k: int| i <= k < old_names.len() implies lex_lt(x@, #[trigger] old_names[k]) by {
            if k > i {
                lemma_lex_transitive(x@, old_names[i as int], old_names[k]);
            }
        };
    }
    v.insert(i, x);
    proof {
        let nv = names_view(v@);
        assert(nv =~= old_names.insert(i as int, x@));
        assert forall|a: int, b: int| 0 <= a < b < nv.len() implies lex_lt(#[trigger] nv[a], #[trigger] nv[b]) by {
            if b < i {
            } else if a < i && b == i {
            } else if a < i && b > i {
                assert(nv[b] == old_names[b - 1]);
            } else if a == i {
                assert(nv[b] == old_names[b - 1]);
            } else {
                assert(nv[a] == old_names[a - 1]);
                assert(nv[b] == old_names[b - 1]);
            }
        };
        assert forall|y: Seq<char>| nv.contains(y) <==> old_names.contains(y) || y == x@ by {
            if nv.contains(y) {
                let k = choose|k: int| 0 <= k < nv.len() && nv[k] == y;
                if k < i {
                    assert(old_names[k] == y);
                } else if k > i {
                    assert(old_names[k - 1] == y);
                }
            }
            if old_names.contains(y) {
                let k = choose|k: int| 0 <= k < old_names.len() && old_names[k] == y;
                if k < i {
                    assert(nv[k] == y);
                } else {
                    assert(nv[k + 1] == y);
                }
            }
            if y == x@ {
                assert(nv[i as int] == y);
            }
        };
        assert(nv.to_set() =~= old_names.to_set().insert(x@));
    }
}

/// The keys of a directory whose entries have these names: the stems of the visible
/// entries, each once, in lexicographic order.
pub fn list_all_objects(entries: &Vec<String>) -> (r: Vec<String>)
    ensures
        strictly_sorted(names_view(r@)),
        names_view(r@).to_set() == keys_of(names_view(entries@)),
{
    let ghost es = names_view(entries@);
    let mut results: Vec<String> = Vec::new();
    let mut i: usize = 0;
    assert(names_view(results@).to_set() =~= keys_of(es.subrange(0, 0)));
    while i < entries.len()
        invariant
            es == names_view(entries@),
            i <= entries@.len(),
            strictly_sorted(names_view(results@)),
            names_view(results@).to_set() == keys_of(es.subrange(0, i as int)),
        decreases entries@.len() - i,
    {
        let name = entries[i].as_str();
        let ghost prev = keys_of(es.subrange(0, i as int));
        let ghost next = keys_of(es.subrange(0, i + 1));
        if is_hidden(name) {
            assert(next =~= prev) by {
                assert forall|k: Seq<char>| next.contains(k) implies prev.contains(k) by {
                    let j = choose|j: int| 0 <= j < i + 1 && !is_hidden_spec(#[trigger] es.subrange(0, i + 1)[j]) && stem_of(es.subrange(0, i + 1)[j]) == k;
                    assert(es.subrange(0, i as int)[j] == es[j]);
                };
                assert forall|k: Seq<char>| prev.contains(k) implies next.contains(k) by {
                    let j = choose|j: int| 0 <= j < i && !is_hidden_spec(#[trigger] es.subrange(0, i as int)[j]) && stem_of(es.subrange(0, i as int)[j]) == k;
                    assert(es.subrange(0, i + 1)[j] == es[j]);
                };
            };
        } else {
            let stem = file_stem(name);
            assert(next =~= prev.insert(stem@)) by {
                assert forall|k: Seq<char>| next.contains(k) implies prev.insert(stem@).contains(k) by {
                    let j = choose|j: int| 0 <= j < i + 1 && !is_hidden_spec(#[trigger] es.subrange(0, i + 1)[j]) && stem_of(es.subrange(0, i + 1)[j]) == k;
                    if j < i {
                        assert(es.subrange(0, i as int)[j] == es[j]);
                    }
                };
                assert forall|k: Seq<char>| prev.insert(stem@).contains(k) implies next.contains(k) by {
                    if k == stem@ {
                        assert(es.subrange(0, i + 1)[i as int] == es[i as int]);
                    } else {
                        let j = choose|j: int| 0 <= j < i && !is_hidden_spec(#[trigger] es.subrange(0, i as int)[j]) && stem_of(es.subrange(0, i as int)[j]) == k;
                        assert(es.subrange(0, i + 1)[j] == es[j]);
                    }
                };
            };
            insert_name(&mut results, stem);
        }
        i = i + 1;
    }
    assert(es.subrange(0, entries@.len() as int) =~= es);
    results
}

/// The given paths in lexicographic order, each once.
pub fn list_dir(paths: &Vec<String>) -> (r: Vec<String>)
    ensures
        strictly_sorted(names_view(r@)),
        names_view(r@).to_set() == names_view(paths@).to_set(),
{
    let ghost ps = names_view(paths@);
    let mut files: Vec<String> = Vec::new();
    let mut i: usize = 0;
    assert(names_view(files@).to_set() =~= ps.subrange(0, 0).to_set());
    while i < paths.len()
        invariant
            ps == names_view(paths@),
            i <= paths@.len(),
            strictly_sorted(names_view(files@)),
            names_view(files@).to_set() == ps.subrange(0, i as int).to_set(),
        decreases paths@.len() - i,
    {
        proof {
            assert(ps.subrange(0, i + 1) =~= ps.subrange(0, i as int).push(ps[i as int]));
            ps.subrange(0, i as int).lemma_push_to_set_commute(ps[i as int]);
        }
        insert_name(&mut files, paths[i].clone());
        i = i + 1;
    }
    assert(ps.subrange(0, paths@.len() as int) =~= ps);
    files
}

} // verus!
